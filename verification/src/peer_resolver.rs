//! Peer resolver for iroh transport.
//!
//! Tickets are announced and discovered over the UDP multicast channel that
//! LocalSend uses for HTTP discovery. The message carries an optional ticket:
//! peers without iroh ignore it, the others take it to connect.

use vstd::prelude::*;

verus! {

/// Default multicast group (same as LocalSend HTTP discovery).
pub const DEFAULT_MULTICAST_GROUP: [u8; 4] = [224, 0, 0, 167];

/// Default multicast port (same as LocalSend HTTP discovery).
pub const DEFAULT_MULTICAST_PORT: u16 = 53317;

/// Multicast message payload sent over UDP.
#[derive(Clone, Debug, PartialEq, Eq)]
pub struct IrohMulticastMessage {
    /// Sender display name.
    pub alias: String,
    /// Sender fingerprint for identity.
    pub fingerprint: String,
    /// Protocol version (e.g. "2.1").
    pub version: String,
    /// Device model (e.g. "Samsung Galaxy S24").
    pub device_model: Option<String>,
    /// Device type: "mobile", "desktop", etc.
    pub device_type: Option<String>,
    /// HTTP port for backward compatibility.
    pub port: u16,
    /// "http" or "https".
    pub protocol: Option<String>,
    /// Whether this is an announcement (triggers response from listeners).
    pub announce: bool,
    /// The iroh ticket string (present when sender is ready for iroh transfer).
    pub iroh_ticket: Option<String>,
}

/// A discovered peer offering an iroh transfer.
#[derive(Clone, Debug, PartialEq, Eq)]
pub struct DiscoveredIrohPeer {
    /// Sender display name.
    pub alias: String,
    /// Sender fingerprint.
    pub fingerprint: String,
    /// Protocol version.
    pub version: String,
    /// Device model.
    pub device_model: Option<String>,
    /// Device type.
    pub device_type: Option<String>,
    /// The iroh ticket for connecting.
    pub iroh_ticket: String,
    /// Source IP address of the multicast message.
    pub source_ip: String,
}

/// The peer that a datagram announces: nothing where the datagram holds no
/// message, where it comes from ourselves, or where it has no ticket.
pub open spec fn announced_peer(
    message: Option<IrohMulticastMessage>,
    source_ip: String,
    own_fingerprint: Seq<char>,
) -> Option<DiscoveredIrohPeer> {
    match message {
        Some(m) => match m.iroh_ticket {
            Some(ticket) => if m.fingerprint@ == own_fingerprint {
                None
            } else {
                Some(
                    DiscoveredIrohPeer {
                        alias: m.alias,
                        fingerprint: m.fingerprint,
                        version: m.version,
                        device_model: m.device_model,
                        device_type: m.device_type,
                        iroh_ticket: ticket,
                        source_ip,
                    },
                )
            },
            None => None,
        },
        None => None,
    }
}

/// Where tickets are announced and listened for.
#[derive(Clone, Copy, Debug, PartialEq, Eq)]
pub struct PeerResolver {
    /// The IPv4 multicast group.
    pub group: [u8; 4],
    /// The port.
    pub port: u16,
}

impl PeerResolver {
    /// The resolver for the default multicast group and port.
    pub fn new() -> (r: Self)
        ensures
            r.group@ == seq![224u8, 0, 0, 167],
            r.port == 53317,
    {
        let r = Self::with_addr(DEFAULT_MULTICAST_GROUP, DEFAULT_MULTICAST_PORT);
        assert(r.group@ =~= seq![224u8, 0, 0, 167]);
        r
    }

    /// The resolver for a custom multicast group and port.
    pub fn with_addr(group: [u8; 4], port: u16) -> (r: Self)
        ensures
            r.group == group,
            r.port == port,
    {
        PeerResolver { group, port }
    }

    /// The peer that a datagram announces. `message` is what the datagram was
    /// decoded to, nothing where it could not be.
    pub fn parse_message(
        message: Option<IrohMulticastMessage>,
        source_ip: String,
        own_fingerprint: &str,
    ) -> (r: Option<DiscoveredIrohPeer>)
        ensures
            r == announced_peer(message, source_ip, own_fingerprint@),
            r is Some <==> (message matches Some(m) && m.iroh_ticket is Some && m.fingerprint@
                != own_fingerprint@),
            r matches Some(peer) ==> (message matches Some(m) && peer.alias == m.alias
                && peer.fingerprint == m.fingerprint && peer.version == m.version
                && peer.device_model == m.device_model && peer.device_type == m.device_type && Some(
                peer.iroh_ticket,
            ) == m.iroh_ticket && peer.source_ip == source_ip),
    {
        let message = match message {
            Some(message) => message,
            None => {
                return None;
            },
        };
        if message.fingerprint == own_fingerprint.to_owned() {
            return None;
        }
        let iroh_ticket = match message.iroh_ticket {
            Some(ticket) => ticket,
            None => {
                return None;
            },
        };
        Some(
            DiscoveredIrohPeer {
                alias: message.alias,
                fingerprint: message.fingerprint,
                version: message.version,
                device_model: message.device_model,
                device_type: message.device_type,
                iroh_ticket,
                source_ip,
            },
        )
    }

    /// Starts a burst of announcements, one for each of `delays`.
    pub fn announce_burst<D: Copy>(&self, delays: Vec<D>) -> (r: AnnounceBurst<D>)
        ensures
            r.delays == delays,
            r.sent == 0,
    {
        AnnounceBurst { delays, sent: 0 }
    }

    /// Starts to listen for announcements of others than ourselves.
    pub fn listen(&self, own_fingerprint: &str) -> (r: ListenSession)
        ensures
            r.own_fingerprint@ == own_fingerprint@,
            r.peers@ == Seq::<DiscoveredIrohPeer>::empty(),
    {
        ListenSession { own_fingerprint: own_fingerprint.to_owned(), peers: Vec::new() }
    }
}

/// A message is discovered exactly where it carries a ticket and comes from
/// someone else. The peer has the alias, the fingerprint, the version, the
/// device model, the device type and the ticket of the message, each whatever
/// the others are, and the address that the message came from. A datagram
/// without a message announces nobody.
pub proof fn law_discovered_iff_foreign_with_ticket(
    message: IrohMulticastMessage,
    source_ip: String,
    own_fingerprint: Seq<char>,
)
    ensures
        announced_peer(Some(message), source_ip, own_fingerprint) is Some <==> (
        message.iroh_ticket is Some && message.fingerprint@ != own_fingerprint),
        announced_peer(Some(message), source_ip, own_fingerprint) matches Some(peer) ==> {
            &&& peer.alias == message.alias
            &&& peer.fingerprint == message.fingerprint
            &&& peer.version == message.version
            &&& peer.device_model == message.device_model
            &&& peer.device_type == message.device_type
            &&& Some(peer.iroh_ticket) == message.iroh_ticket
            &&& peer.source_ip == source_ip
        },
        announced_peer(None, source_ip, own_fingerprint) is None,
{
}

/// Announcements that are sent several times, with delays between them.
#[derive(Debug, PartialEq, Eq)]
pub struct AnnounceBurst<D> {
    /// One delay for each announcement; the last one is not waited for.
    pub delays: Vec<D>,
    /// How many announcements have been sent.
    pub sent: usize,
}

/// What to do next in a burst of announcements.
#[derive(Clone, Copy, Debug, PartialEq, Eq)]
pub enum BurstStep<D> {
    /// Send the announcement, then wait if there is a delay.
    Announce(Option<D>),
    /// The burst is over.
    Finished,
}

impl<D: Copy> AnnounceBurst<D> {
    /// What to do next: nothing more where the burst was cancelled or all
    /// announcements were sent, and otherwise to announce, and to wait unless
    /// this is the last announcement.
    pub open spec fn step(self, cancelled: bool) -> BurstStep<D> {
        if cancelled || self.sent >= self.delays@.len() {
            BurstStep::Finished
        } else if self.sent + 1 < self.delays@.len() {
            BurstStep::Announce(Some(self.delays@[self.sent as int]))
        } else {
            BurstStep::Announce(None)
        }
    }

    /// The burst after that.
    pub open spec fn after_step(self, cancelled: bool) -> Self {
        if self.step(cancelled) is Announce {
            AnnounceBurst { sent: (self.sent + 1) as usize, ..self }
        } else {
            self
        }
    }

    /// Decides what to do next in the burst.
    pub fn next_step(&mut self, cancelled: bool) -> (r: BurstStep<D>)
        ensures
            r == old(self).step(cancelled),
            *final(self) == old(self).after_step(cancelled),
            r is Finished <==> cancelled || old(self).sent >= old(self).delays@.len(),
            r matches BurstStep::Announce(Some(delay)) ==> old(self).sent + 1 < old(
                self,
            ).delays@.len() && delay == old(self).delays@[old(self).sent as int],
            r matches BurstStep::Announce(None) ==> old(self).sent + 1 == old(self).delays@.len(),
            final(self).delays == old(self).delays,
            final(self).sent == old(self).sent + if r is Finished {
                0int
            } else {
                1int
            },
    {
        if cancelled || self.sent >= self.delays.len() {
            return BurstStep::Finished;
        }
        let delay = self.delays[self.sent];
        self.sent = self.sent + 1;
        if self.sent < self.delays.len() {
            BurstStep::Announce(Some(delay))
        } else {
            BurstStep::Announce(None)
        }
    }
}

/// The burst after `n` steps without cancellation.
pub open spec fn burst_after<D: Copy>(burst: AnnounceBurst<D>, n: nat) -> AnnounceBurst<D>
    decreases n,
{
    if n == 0 {
        burst
    } else {
        burst_after(burst, (n - 1) as nat).after_step(false)
    }
}

/// A burst that is not cancelled sends as many announcements as it has delays.
/// It waits for each delay between two announcements, in their order, and not
/// after the last one.
pub proof fn law_burst_announces_once_per_delay<D: Copy>(burst: AnnounceBurst<D>, n: nat)
    requires
        burst.sent == 0,
        n <= burst.delays@.len(),
    ensures
        burst_after(burst, n).sent == n,
        burst_after(burst, n).delays == burst.delays,
        burst_after(burst, n).step(false) == if n == burst.delays@.len() {
            BurstStep::<D>::Finished
        } else if n + 1 == burst.delays@.len() {
            BurstStep::<D>::Announce(None)
        } else {
            BurstStep::<D>::Announce(Some(burst.delays@[n as int]))
        },
    decreases n,
{
    if n > 0 {
        law_burst_announces_once_per_delay(burst, (n - 1) as nat);
        assert(burst.delays.len() == burst.delays@.len());
    }
}

/// A step of a burst ends it exactly where it was cancelled or nothing is left
/// to send. Otherwise it sends one announcement, and waits for the delay at its
/// place unless it is the last. The delays stay as they are.
pub proof fn law_burst_step<D: Copy>(burst: AnnounceBurst<D>, cancelled: bool)
    ensures
        burst.step(cancelled) is Finished <==> cancelled || burst.sent >= burst.delays@.len(),
        !cancelled && burst.sent + 1 < burst.delays@.len() ==> burst.step(cancelled)
            == BurstStep::Announce(Some(burst.delays@[burst.sent as int])),
        !cancelled && burst.sent + 1 == burst.delays@.len() ==> burst.step(cancelled)
            == BurstStep::<D>::Announce(None),
        cancelled || burst.sent >= burst.delays@.len() ==> burst.after_step(cancelled) == burst,
        !cancelled && burst.sent < burst.delays@.len() ==> burst.after_step(cancelled).sent
            == burst.sent + 1,
        burst.after_step(cancelled).delays == burst.delays,
{
    assert(burst.delays.len() == burst.delays@.len());
}

/// Listening for announcements.
#[derive(Debug, PartialEq, Eq)]
pub struct ListenSession {
    /// The fingerprint whose announcements are left out.
    pub own_fingerprint: String,
    /// The peers discovered so far, in order.
    pub peers: Vec<DiscoveredIrohPeer>,
}

/// What happens while listening.
#[derive(Clone, Debug, PartialEq, Eq)]
pub enum ListenEvent {
    /// A datagram has come in.
    Datagram {
        /// The message that it holds, nothing where it could not be decoded.
        message: Option<IrohMulticastMessage>,
        /// The IP address that it came from.
        source_ip: String,
    },
    /// Receiving failed.
    Failed,
    /// The session was cancelled.
    Cancelled,
}

/// What to do next while listening.
#[derive(Clone, Copy, Debug, PartialEq, Eq)]
pub enum ListenStep {
    /// Wait for the next datagram.
    Receive,
    /// Stop and hand out the peers.
    Stop,
}

/// The peers after an event.
pub open spec fn peers_after(
    own_fingerprint: Seq<char>,
    peers: Seq<DiscoveredIrohPeer>,
    event: ListenEvent,
) -> Seq<DiscoveredIrohPeer> {
    match event {
        ListenEvent::Datagram { message, source_ip } => match announced_peer(
            message,
            source_ip,
            own_fingerprint,
        ) {
            Some(peer) => peers.push(peer),
            None => peers,
        },
        _ => peers,
    }
}

impl ListenSession {
    /// Takes note of an event, and decides what to do next. Only a
    /// cancellation ends the session.
    pub fn on_event(&mut self, event: ListenEvent) -> (r: ListenStep)
        ensures
            final(self).own_fingerprint == old(self).own_fingerprint,
            final(self).peers@ == peers_after(old(self).own_fingerprint@, old(self).peers@, event),
            event !is Datagram ==> final(self).peers@ == old(self).peers@,
            event matches ListenEvent::Datagram { message, source_ip } ==> if (message matches Some(
                m,
            ) && m.iroh_ticket is Some && m.fingerprint@ != old(self).own_fingerprint@) {
                &&& final(self).peers@.len() == old(self).peers@.len() + 1
                &&& final(self).peers@.drop_last() == old(self).peers@
                &&& final(self).peers@.last().alias == message->Some_0.alias
                &&& final(self).peers@.last().fingerprint == message->Some_0.fingerprint
                &&& final(self).peers@.last().version == message->Some_0.version
                &&& final(self).peers@.last().device_model == message->Some_0.device_model
                &&& final(self).peers@.last().device_type == message->Some_0.device_type
                &&& Some(final(self).peers@.last().iroh_ticket) == message->Some_0.iroh_ticket
                &&& final(self).peers@.last().source_ip == source_ip
            } else {
                final(self).peers@ == old(self).peers@
            },
            r == if event is Cancelled {
                ListenStep::Stop
            } else {
                ListenStep::Receive
            },
    {
        match event {
            ListenEvent::Datagram { message, source_ip } => {
                match PeerResolver::parse_message(
                    message,
                    source_ip,
                    self.own_fingerprint.as_str(),
                ) {
                    Some(peer) => {
                        self.peers.push(peer);
                    },
                    None => {},
                }
                ListenStep::Receive
            },
            ListenEvent::Failed => ListenStep::Receive,
            ListenEvent::Cancelled => ListenStep::Stop,
        }
    }
}

/// The peers after a series of events, none known before.
pub open spec fn peers_after_all(own_fingerprint: Seq<char>, events: Seq<ListenEvent>) -> Seq<
    DiscoveredIrohPeer,
>
    decreases events.len(),
{
    if events.len() == 0 {
        Seq::empty()
    } else {
        peers_after(
            own_fingerprint,
            peers_after_all(own_fingerprint, events.drop_last()),
            events.last(),
        )
    }
}

/// What an event announces, if anything.
pub open spec fn event_peer(own_fingerprint: Seq<char>, event: ListenEvent) -> Option<
    DiscoveredIrohPeer,
> {
    match event {
        ListenEvent::Datagram { message, source_ip } => announced_peer(
            message,
            source_ip,
            own_fingerprint,
        ),
        _ => None,
    }
}

/// Listening yields the peers that the datagrams announce, each as often and
/// in the order in which it was announced.
pub proof fn law_listen_collects_in_order(own_fingerprint: Seq<char>, events: Seq<ListenEvent>)
    ensures
        peers_after_all(own_fingerprint, events) == events.filter_map(
            |e: ListenEvent| event_peer(own_fingerprint, e),
        ),
    decreases events.len(),
{
    let f = |e: ListenEvent| event_peer(own_fingerprint, e);
    if events.len() > 0 {
        law_listen_collects_in_order(own_fingerprint, events.drop_last());
        assert(peers_after_all(own_fingerprint, events) =~= events.filter_map(f));
    } else {
        assert(events.filter_map(f) =~= Seq::<DiscoveredIrohPeer>::empty());
    }
}

/// Listening never yields ourselves.
pub proof fn law_listen_never_yields_self(
    own_fingerprint: Seq<char>,
    events: Seq<ListenEvent>,
    i: int,
)
    requires
        0 <= i < peers_after_all(own_fingerprint, events).len(),
    ensures
        peers_after_all(own_fingerprint, events)[i].fingerprint@ != own_fingerprint,
    decreases events.len(),
{
    if events.len() > 0 {
        let before = peers_after_all(own_fingerprint, events.drop_last());
        if i < before.len() {
            law_listen_never_yields_self(own_fingerprint, events.drop_last(), i);
        }
    }
}

/// A datagram adds one peer behind those known, with the fields of its message,
/// exactly where the message carries a ticket and comes from someone else.
/// Nothing else changes the peers, whoever is known already.
pub proof fn law_event_adds_announced_peer(
    own_fingerprint: Seq<char>,
    peers: Seq<DiscoveredIrohPeer>,
    event: ListenEvent,
)
    ensures
        event !is Datagram ==> peers_after(own_fingerprint, peers, event) == peers && event_peer(
            own_fingerprint,
            event,
        ) is None,
        event matches ListenEvent::Datagram { message, source_ip } ==> if (message matches Some(m)
            && m.iroh_ticket is Some && m.fingerprint@ != own_fingerprint) {
            event_peer(own_fingerprint, event) matches Some(peer) && peers_after(
                own_fingerprint,
                peers,
                event,
            ) == peers.push(peer) && peer.alias == message->Some_0.alias && peer.fingerprint
                == message->Some_0.fingerprint && peer.version == message->Some_0.version
                && peer.device_model == message->Some_0.device_model && peer.device_type
                == message->Some_0.device_type && Some(peer.iroh_ticket)
                == message->Some_0.iroh_ticket && peer.source_ip == source_ip
        } else {
            peers_after(own_fingerprint, peers, event) == peers && event_peer(
                own_fingerprint,
                event,
            ) is None
        },
{
}

} // verus!
