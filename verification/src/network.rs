//! The packets that travel through the mesh and the source route each of
//! them carries, together with the mathematical view of each type.
use vstd::prelude::*;

verus! {

/// Identifier of a node, unique in the mesh.
pub type NodeId = u8;

/// Number of payload bytes a fragment carries.
pub const FRAGMENT_DSIZE: usize = 128;

/// What kind of participant a node is.
#[derive(Debug, Clone, Copy, PartialEq, Eq, Structural, Hash)]
pub enum NodeType {
    Client,
    Drone,
    Server,
}

/// The route a packet carries: every hop from source to destination and a
/// cursor that names the hop the packet is currently at.
#[derive(Debug, PartialEq, Eq, Hash)]
pub struct SourceRoutingHeader {
    pub hop_index: usize,
    pub hops: Vec<NodeId>,
}

/// Mathematical view of a [`SourceRoutingHeader`].
pub struct Route {
    pub hops: Seq<NodeId>,
    pub hop_index: nat,
}

impl Route {
    /// The hop the cursor points at, if the route is not exhausted.
    pub open spec fn current_hop(self) -> Option<NodeId> {
        if self.hop_index < self.hops.len() {
            Some(self.hops[self.hop_index as int])
        } else {
            None
        }
    }

    /// The hop after the one the cursor points at, if there is one.
    pub open spec fn next_hop(self) -> Option<NodeId> {
        if self.hop_index + 1 < self.hops.len() {
            Some(self.hops[self.hop_index as int + 1])
        } else {
            None
        }
    }

    /// The same hops with the cursor moved one hop forward.
    pub open spec fn advanced(self) -> Route {
        Route { hops: self.hops, hop_index: self.hop_index + 1 }
    }

    /// The same hops with the cursor moved one hop back; a cursor at the
    /// first hop stays there.
    pub open spec fn retreated(self) -> Route {
        Route {
            hops: self.hops,
            hop_index: if self.hop_index > 0 {
                (self.hop_index - 1) as nat
            } else {
                0
            },
        }
    }
}

impl View for SourceRoutingHeader {
    type V = Route;

    open spec fn view(&self) -> Route {
        Route { hops: self.hops@, hop_index: self.hop_index as nat }
    }
}

impl Clone for SourceRoutingHeader {
    fn clone(&self) -> (res: Self)
        ensures
            res@ == self@,
    {
        SourceRoutingHeader { hop_index: self.hop_index, hops: self.hops.clone() }
    }
}

impl SourceRoutingHeader {
    /// A route over `hops` with the cursor at `hop_index`.
    pub fn new(hops: Vec<NodeId>, hop_index: usize) -> (res: Self)
        ensures
            res@ == (Route { hops: hops@, hop_index: hop_index as nat }),
    {
        SourceRoutingHeader { hop_index, hops }
    }

    /// A route over `hops` with the cursor at the source.
    pub fn initialize(hops: Vec<NodeId>) -> (res: Self)
        ensures
            res@ == (Route { hops: hops@, hop_index: 0 }),
    {
        SourceRoutingHeader { hop_index: 0, hops }
    }

    /// A route over `hops` as the source sends it: the cursor is at the
    /// first hop after the source.
    pub fn with_first_hop(hops: Vec<NodeId>) -> (res: Self)
        ensures
            res@ == (Route { hops: hops@, hop_index: 1 }),
    {
        SourceRoutingHeader { hop_index: 1, hops }
    }

    /// The route without hops.
    pub fn empty_route() -> (res: Self)
        ensures
            res@ == (Route { hops: Seq::empty(), hop_index: 0 }),
    {
        SourceRoutingHeader { hop_index: 0, hops: Vec::new() }
    }

    /// The hop the cursor points at, if the route is not exhausted.
    pub fn current_hop(&self) -> (res: Option<NodeId>)
        ensures
            res == self@.current_hop(),
    {
        if self.hop_index < self.hops.len() {
            Some(self.hops[self.hop_index])
        } else {
            None
        }
    }

    /// The hop after the one the cursor points at, if there is one.
    pub fn next_hop(&self) -> (res: Option<NodeId>)
        ensures
            res == self@.next_hop(),
    {
        if self.hop_index < self.hops.len() && self.hop_index + 1 < self.hops.len() {
            Some(self.hops[self.hop_index + 1])
        } else {
            None
        }
    }
}

/// A piece of a message: the only packet that is subject to the drop
/// lottery.
#[derive(Debug, Clone, Copy, PartialEq, Eq, Hash)]
pub struct Fragment {
    pub fragment_index: u64,
    pub total_n_fragments: u64,
    pub length: u8,
    pub data: [u8; 128],
}

/// Mathematical view of a [`Fragment`].
pub struct FragmentView {
    pub fragment_index: u64,
    pub total_n_fragments: u64,
    pub length: u8,
    pub data: Seq<u8>,
}

impl View for Fragment {
    type V = FragmentView;

    open spec fn view(&self) -> FragmentView {
        FragmentView {
            fragment_index: self.fragment_index,
            total_n_fragments: self.total_n_fragments,
            length: self.length,
            data: self.data@,
        }
    }
}

/// The payload that holds `bytes`, as far as they fit, and zeros after them.
pub open spec fn padded(bytes: Seq<u8>) -> Seq<u8> {
    Seq::new(128, |i: int| if i < bytes.len() { bytes[i] } else { 0u8 })
}

/// The payload that holds `bytes`, as far as they fit, and zeros after them.
pub fn pad(bytes: &[u8]) -> (data: [u8; 128])
    ensures
        data@ == padded(bytes@),
{
    let mut data: [u8; 128] = [0; 128];
    let mut i: usize = 0;
    while i < bytes.len() && i < FRAGMENT_DSIZE
        invariant
            i <= 128,
            i <= bytes@.len(),
            forall|j: int| 0 <= j < i ==> data@[j] == bytes@[j],
            forall|j: int| i <= j < 128 ==> data@[j] == 0,
        decreases 128 - i,
    {
        data[i] = bytes[i];
        i += 1;
    }
    proof {
        assert(data@ =~= padded(bytes@));
    }
    data
}

impl Fragment {
    /// The fragment that carries `raw_data` in UTF-8, as far as it fits into
    /// the payload.
    pub fn from_string(fragment_index: u64, total_n_fragments: u64, raw_data: String) -> (res:
        Self)
        ensures
            res@ == (FragmentView {
                fragment_index,
                total_n_fragments,
                length: if vstd::utf8::encode_utf8(raw_data@).len() <= 128 {
                    vstd::utf8::encode_utf8(raw_data@).len() as u8
                } else {
                    128
                },
                data: padded(vstd::utf8::encode_utf8(raw_data@)),
            }),
    {
        let bytes = raw_data.as_str().as_bytes();
        let length: u8 = if bytes.len() <= FRAGMENT_DSIZE {
            bytes.len() as u8
        } else {
            128
        };
        Fragment { fragment_index, total_n_fragments, length, data: pad(bytes) }
    }

    /// A fragment whose whole payload is `data`.
    pub fn new(fragment_index: u64, total_n_fragments: u64, data: [u8; 128]) -> (res: Self)
        ensures
            res@ == (FragmentView {
                fragment_index,
                total_n_fragments,
                length: 128,
                data: data@,
            }),
    {
        Fragment { fragment_index, total_n_fragments, length: 128, data }
    }
}

/// Confirms that a fragment arrived.
#[derive(Debug, Clone, Copy, PartialEq, Eq, Structural, Hash)]
pub struct Ack {
    pub fragment_index: u64,
}

/// Why a fragment did not travel on.
#[derive(Debug, Clone, Copy, PartialEq, Eq, Structural, Hash)]
pub enum NackType {
    /// The named neighbour cannot be reached from the node that reports.
    ErrorInRouting(NodeId),
    /// The route ends at a forwarding node.
    DestinationIsDrone,
    /// The fragment lost the drop lottery.
    Dropped,
    /// The packet was routed to the node that reports, which the route does
    /// not name at this hop.
    UnexpectedRecipient(NodeId),
}

/// Reports that a fragment did not travel on.
#[derive(Debug, Clone, Copy, PartialEq, Eq, Structural, Hash)]
pub struct Nack {
    pub fragment_index: u64,
    pub nack_type: NackType,
}

/// A broadcast that discovers the mesh: it collects the nodes it passed.
#[derive(Debug, PartialEq, Eq, Hash)]
pub struct FloodRequest {
    pub flood_id: u64,
    pub initiator_id: NodeId,
    pub path_trace: Vec<(NodeId, NodeType)>,
}

/// Mathematical view of a [`FloodRequest`].
pub struct FloodRequestView {
    pub flood_id: u64,
    pub initiator_id: NodeId,
    pub path_trace: Seq<(NodeId, NodeType)>,
}

/// The node identifiers of a path trace, in the order of the trace.
pub open spec fn trace_ids(trace: Seq<(NodeId, NodeType)>) -> Seq<NodeId> {
    Seq::new(trace.len(), |i: int| trace[i].0)
}

impl FloodRequestView {
    /// The request after it passed one more node.
    pub open spec fn incremented(self, node_id: NodeId, node_type: NodeType) -> FloodRequestView {
        FloodRequestView { path_trace: self.path_trace.push((node_id, node_type)), ..self }
    }

    /// The answer to the request, as the last node of the trace sends it: it
    /// carries the trace and travels it backwards.
    pub open spec fn response(self, session_id: u64) -> PacketView {
        PacketView {
            routing_header: Route { hops: trace_ids(self.path_trace).reverse(), hop_index: 0 },
            session_id,
            pack_type: PacketTypeView::FloodResponse(
                FloodResponseView { flood_id: self.flood_id, path_trace: self.path_trace },
            ),
        }
    }
}

impl View for FloodRequest {
    type V = FloodRequestView;

    open spec fn view(&self) -> FloodRequestView {
        FloodRequestView {
            flood_id: self.flood_id,
            initiator_id: self.initiator_id,
            path_trace: self.path_trace@,
        }
    }
}

/// The answer to a [`FloodRequest`]: the nodes the request passed.
#[derive(Debug, PartialEq, Eq, Hash)]
pub struct FloodResponse {
    pub flood_id: u64,
    pub path_trace: Vec<(NodeId, NodeType)>,
}

/// Mathematical view of a [`FloodResponse`].
pub struct FloodResponseView {
    pub flood_id: u64,
    pub path_trace: Seq<(NodeId, NodeType)>,
}

impl View for FloodResponse {
    type V = FloodResponseView;

    open spec fn view(&self) -> FloodResponseView {
        FloodResponseView { flood_id: self.flood_id, path_trace: self.path_trace@ }
    }
}

/// A copy of a path trace.
pub fn copy_trace(trace: &Vec<(NodeId, NodeType)>) -> (res: Vec<(NodeId, NodeType)>)
    ensures
        res@ == trace@,
{
    let mut res: Vec<(NodeId, NodeType)> = Vec::new();
    let mut i: usize = 0;
    while i < trace.len()
        invariant
            i <= trace.len(),
            res@ == trace@.take(i as int),
        decreases trace.len() - i,
    {
        let (node_id, node_type) = trace[i];
        res.push((node_id, node_type));
        proof {
            assert(trace@.take(i + 1) =~= trace@.take(i as int).push(trace@[i as int]));
        }
        i += 1;
    }
    proof {
        assert(trace@.take(trace.len() as int) =~= trace@);
    }
    res
}

impl Clone for FloodRequest {
    fn clone(&self) -> (res: Self)
        ensures
            res@ == self@,
    {
        FloodRequest {
            flood_id: self.flood_id,
            initiator_id: self.initiator_id,
            path_trace: copy_trace(&self.path_trace),
        }
    }
}

impl Clone for FloodResponse {
    fn clone(&self) -> (res: Self)
        ensures
            res@ == self@,
    {
        FloodResponse { flood_id: self.flood_id, path_trace: copy_trace(&self.path_trace) }
    }
}

impl FloodRequest {
    /// A request as its initiator sends it: the trace holds the initiator.
    pub fn initialize(flood_id: u64, initiator_id: NodeId, node_type: NodeType) -> (res: Self)
        ensures
            res@ == (FloodRequestView {
                flood_id,
                initiator_id,
                path_trace: seq![(initiator_id, node_type)],
            }),
    {
        let mut path_trace: Vec<(NodeId, NodeType)> = Vec::new();
        path_trace.push((initiator_id, node_type));
        proof {
            assert(path_trace@ =~= seq![(initiator_id, node_type)]);
        }
        FloodRequest { flood_id, initiator_id, path_trace }
    }

    /// The request after it passed one more node; `self` stays as it is.
    pub fn get_incremented(&self, node_id: NodeId, node_type: NodeType) -> (res: Self)
        ensures
            res@ == self@.incremented(node_id, node_type),
    {
        let mut path_trace = copy_trace(&self.path_trace);
        path_trace.push((node_id, node_type));
        FloodRequest { flood_id: self.flood_id, initiator_id: self.initiator_id, path_trace }
    }

    /// The answer to the request, as the last node of the trace sends it.
    pub fn generate_response(&self, session_id: u64) -> (res: Packet)
        ensures
            res@ == self@.response(session_id),
    {
        let ghost target = trace_ids(self.path_trace@).reverse();
        let mut hops: Vec<NodeId> = Vec::new();
        let mut left: usize = self.path_trace.len();
        while left > 0
            invariant
                left <= self.path_trace.len(),
                target == trace_ids(self.path_trace@).reverse(),
                hops@ == target.take(self.path_trace.len() - left),
            decreases left,
        {
            left -= 1;
            hops.push(self.path_trace[left].0);
            proof {
                assert(hops@ =~= target.take(self.path_trace.len() - left));
            }
        }
        proof {
            assert(hops@ =~= target);
        }
        Packet::new_flood_response(
            SourceRoutingHeader::initialize(hops),
            session_id,
            FloodResponse { flood_id: self.flood_id, path_trace: copy_trace(&self.path_trace) },
        )
    }
}

/// What a packet carries.
#[derive(Debug, PartialEq, Eq, Hash)]
pub enum PacketType {
    MsgFragment(Fragment),
    Ack(Ack),
    Nack(Nack),
    FloodRequest(FloodRequest),
    FloodResponse(FloodResponse),
}

/// Mathematical view of a [`PacketType`].
pub enum PacketTypeView {
    MsgFragment(FragmentView),
    Ack(Ack),
    Nack(Nack),
    FloodRequest(FloodRequestView),
    FloodResponse(FloodResponseView),
}

impl View for PacketType {
    type V = PacketTypeView;

    open spec fn view(&self) -> PacketTypeView {
        match self {
            PacketType::MsgFragment(fragment) => PacketTypeView::MsgFragment(fragment@),
            PacketType::Ack(ack) => PacketTypeView::Ack(*ack),
            PacketType::Nack(nack) => PacketTypeView::Nack(*nack),
            PacketType::FloodRequest(request) => PacketTypeView::FloodRequest(request@),
            PacketType::FloodResponse(response) => PacketTypeView::FloodResponse(response@),
        }
    }
}

impl Clone for PacketType {
    fn clone(&self) -> (res: Self)
        ensures
            res@ == self@,
    {
        match self {
            PacketType::MsgFragment(fragment) => PacketType::MsgFragment(*fragment),
            PacketType::Ack(ack) => PacketType::Ack(*ack),
            PacketType::Nack(nack) => PacketType::Nack(*nack),
            PacketType::FloodRequest(request) => PacketType::FloodRequest(request.clone()),
            PacketType::FloodResponse(response) => PacketType::FloodResponse(response.clone()),
        }
    }
}

/// A packet: what it carries, the route it follows and the session it
/// belongs to.
#[derive(Debug, PartialEq, Eq, Hash)]
pub struct Packet {
    pub routing_header: SourceRoutingHeader,
    pub session_id: u64,
    pub pack_type: PacketType,
}

/// Mathematical view of a [`Packet`].
pub struct PacketView {
    pub routing_header: Route,
    pub session_id: u64,
    pub pack_type: PacketTypeView,
}

impl PacketView {
    /// The same packet one hop further along its route.
    pub open spec fn advanced(self) -> PacketView {
        PacketView { routing_header: self.routing_header.advanced(), ..self }
    }

    /// The same packet one hop back along its route.
    pub open spec fn retreated(self) -> PacketView {
        PacketView { routing_header: self.routing_header.retreated(), ..self }
    }
}

impl View for Packet {
    type V = PacketView;

    open spec fn view(&self) -> PacketView {
        PacketView {
            routing_header: self.routing_header@,
            session_id: self.session_id,
            pack_type: self.pack_type@,
        }
    }
}

impl Clone for Packet {
    fn clone(&self) -> (res: Self)
        ensures
            res@ == self@,
    {
        Packet {
            routing_header: self.routing_header.clone(),
            session_id: self.session_id,
            pack_type: self.pack_type.clone(),
        }
    }
}

impl Packet {
    /// A packet that carries a fragment.
    pub fn new_fragment(
        routing_header: SourceRoutingHeader,
        session_id: u64,
        fragment: Fragment,
    ) -> (res: Self)
        ensures
            res@ == (PacketView {
                routing_header: routing_header@,
                session_id,
                pack_type: PacketTypeView::MsgFragment(fragment@),
            }),
    {
        Packet { routing_header, session_id, pack_type: PacketType::MsgFragment(fragment) }
    }

    /// A packet that acknowledges the fragment `fragment_index`.
    pub fn new_ack(routing_header: SourceRoutingHeader, session_id: u64, fragment_index: u64) -> (res:
        Self)
        ensures
            res@ == (PacketView {
                routing_header: routing_header@,
                session_id,
                pack_type: PacketTypeView::Ack(Ack { fragment_index }),
            }),
    {
        Packet { routing_header, session_id, pack_type: PacketType::Ack(Ack { fragment_index }) }
    }

    /// A packet that carries a negative acknowledgement.
    pub fn new_nack(routing_header: SourceRoutingHeader, session_id: u64, nack: Nack) -> (res: Self)
        ensures
            res@ == (PacketView {
                routing_header: routing_header@,
                session_id,
                pack_type: PacketTypeView::Nack(nack),
            }),
    {
        Packet { routing_header, session_id, pack_type: PacketType::Nack(nack) }
    }

    /// A packet that carries a flood request.
    pub fn new_flood_request(
        routing_header: SourceRoutingHeader,
        session_id: u64,
        flood_request: FloodRequest,
    ) -> (res: Self)
        ensures
            res@ == (PacketView {
                routing_header: routing_header@,
                session_id,
                pack_type: PacketTypeView::FloodRequest(flood_request@),
            }),
    {
        Packet { routing_header, session_id, pack_type: PacketType::FloodRequest(flood_request) }
    }

    /// A packet that carries a flood response.
    pub fn new_flood_response(
        routing_header: SourceRoutingHeader,
        session_id: u64,
        flood_response: FloodResponse,
    ) -> (res: Self)
        ensures
            res@ == (PacketView {
                routing_header: routing_header@,
                session_id,
                pack_type: PacketTypeView::FloodResponse(flood_response@),
            }),
    {
        Packet { routing_header, session_id, pack_type: PacketType::FloodResponse(flood_response) }
    }
}

} // verus!
