//! How a node is configured.

use vstd::prelude::*;
use vstd::string::*;
use vstd::utf8::*;
use crate::addr::{IpAddress, SocketAddress};
use crate::api::{
    MeshTransportConfigSnapshot, DEFAULT_MESH_FEC_MAX_REPAIR_SYMBOLS,
    DEFAULT_MESH_FEC_REPAIR_RATIO_BITS, DEFAULT_MESH_FEC_REPAIR_SYMBOLS,
    DEFAULT_MESH_FEC_SYMBOL_SIZE, DEFAULT_MESH_SYNC_INTERVAL_MS,
};
use crate::endpoints::{RelayFailoverControllerEndpoint, RelayFailoverListenerEndpoint};
use crate::forwarder::{RelayForwardEndpoint, RelayForwardRole};
use crate::mesh::MeshNode;
use crate::provision::{collect_region_map, distinct_pairs, pair_value, LinodeProvisionConfig};
use crate::telemetry::DEFAULT_TELEMETRY_STALE_MS;
use crate::text::{decimal, decimal_text, join, joined, views};

verus! {

pub const DEFAULT_STREAM_ID: u64 = 1;

pub const DEFAULT_MAX_RELAY_DOWNSTREAM_CHILDREN: usize = 4;

pub const DEFAULT_RELAY_PRIMARY_SILENCE_MS: u64 = 250;

pub const DEFAULT_RELAY_PRIMARY_RECOVERY_MS: u64 = 2_000;

pub const DEFAULT_RELAY_SECONDARY_WARM_MS: u64 = 750;

pub const DEFAULT_RELAY_FAILOVER_HEARTBEAT_MS: u64 = 100;

pub const DEFAULT_RELAY_FAILOVER_LEASE_MS: u64 = 1_000;

/// The longest lease of a failover, in milliseconds.
pub const MAX_RELAY_FAILOVER_LEASE_MS: u64 = 60_000;

/// The default latitude, 51.5074, as the bits of a double.
pub const DEFAULT_LATITUDE_BITS: u64 = 4_632_445_839_417_212_613;

/// The default longitude, -0.1278, as the bits of a double.
pub const DEFAULT_LONGITUDE_BITS: u64 = 13_817_144_537_404_334_827;

/// The default distance between mirrors, 300, as the bits of a double.
pub const DEFAULT_MIN_MIRROR_DISTANCE_KM_BITS: u64 = 4_643_985_272_004_935_680;

/// The configuration of a node.
#[derive(Debug)]
pub struct Args {
    pub region: String,
    pub node_id: Option<String>,
    pub mesh_bind: SocketAddress,
    pub peers: Vec<String>,
    pub mesh_sync_interval_ms: u64,
    pub mesh_repair_symbols: u32,
    /// The ratio of repair symbols, as the bits of a single.
    pub mesh_repair_ratio_bits: u32,
    pub mesh_max_repair_symbols: u32,
    pub mesh_symbol_size: u16,
    pub private_subnet_discovery: bool,
    pub private_discovery_broadcast_port: u16,
    pub private_discovery_mesh_port: Option<u16>,
    pub fec_bind: SocketAddress,
    /// Whether relay sessions run between fixed addresses on a private network.
    pub relay_controlled_local: bool,
    pub relay_primary_peer: Option<SocketAddress>,
    /// Where the primary sends to; the same as `fec_bind`.
    pub relay_primary_bind: Option<SocketAddress>,
    pub relay_secondary_peer: Option<SocketAddress>,
    pub relay_secondary_bind: Option<SocketAddress>,
    pub relay_primary_id: String,
    pub relay_primary_promoted: bool,
    pub relay_secondary_id: String,
    pub relay_secondary_promoted: bool,
    pub relay_topology_generation: u64,
    pub relay_subscription_id: u64,
    pub relay_forwards: Vec<RelayForwardEndpoint>,
    pub relay_failover_listeners: Vec<RelayFailoverListenerEndpoint>,
    pub relay_failover_controller: Option<RelayFailoverControllerEndpoint>,
    /// How long the primary is silent before the secondary is promoted.
    pub relay_primary_silence_ms: u64,
    /// How long the primary is back before the secondary is demoted.
    pub relay_primary_recovery_ms: u64,
    /// How old the newest repair symbol of a warm secondary may be.
    pub relay_secondary_warm_ms: u64,
    pub relay_failover_heartbeat_ms: u64,
    pub relay_failover_lease_ms: u64,
    pub relay_max_downstream_children: usize,
    pub media_fec_bind: SocketAddress,
    pub http_port: u16,
    pub playback_base_url: Option<String>,
    pub edge_websocket: bool,
    pub edge_webtransport: bool,
    pub raw_tcp_port: Option<u16>,
    pub raw_tcp_tls: bool,
    pub cert: Option<String>,
    pub key: Option<String>,
    pub stream_id: u64,
    pub part_ms: u64,
    pub parts_per_segment: usize,
    pub window_parts: usize,
    pub slot_kb: usize,
    pub continent: String,
    /// The degrees of latitude, as the bits of a double.
    pub latitude_bits: u64,
    /// The degrees of longitude, as the bits of a double.
    pub longitude_bits: u64,
    pub storage_bytes: u64,
    pub egress_capacity_bps: u64,
    pub baseline_per_region: usize,
    pub baseline_per_continent: usize,
    /// The least distance between mirrors, as the bits of a double.
    pub min_mirror_distance_km_bits: u64,
    pub telemetry_bind: Option<SocketAddress>,
    pub telemetry_peers: Vec<String>,
    pub telemetry_dns_name: String,
    /// The four octets as one number, the first octet most significant.
    pub telemetry_private_ipv4: u32,
    pub telemetry_interval_ms: u64,
    pub telemetry_stale_ms: u64,
    pub replication_plan_interval_ms: u64,
    pub provision_command: Option<String>,
    pub linode_provision: bool,
    pub linode_image_id: Option<String>,
    pub linode_instance_type: Option<String>,
    pub linode_domain_id: Option<u64>,
    pub linode_vlan_tag: String,
    pub linode_token_env: String,
    pub linode_pub_key_env: String,
    pub linode_region_maps: Vec<(String, String)>,
    pub provision_timeout_ms: u64,
}

/// A socket of this machine.
pub open spec fn local_socket(port: u16) -> SocketAddress {
    SocketAddress { ip: IpAddress::V4(2_130_706_433), port, flow_info: 0, scope_id: 0 }
}

fn local(port: u16) -> (r: SocketAddress)
    ensures
        r == local_socket(port),
{
    SocketAddress { ip: IpAddress::V4(2_130_706_433), port, flow_info: 0, scope_id: 0 }
}

impl Default for Args {
    /// The configuration where nothing is given.
    fn default() -> (r: Self)
        ensures
            r.region@ == "uk"@,
            r.node_id is None,
            r.mesh_bind == local_socket(9101),
            r.peers@.len() == 0,
            r.mesh_sync_interval_ms == DEFAULT_MESH_SYNC_INTERVAL_MS,
            r.mesh_repair_symbols == DEFAULT_MESH_FEC_REPAIR_SYMBOLS,
            r.mesh_repair_ratio_bits == DEFAULT_MESH_FEC_REPAIR_RATIO_BITS,
            r.mesh_max_repair_symbols == DEFAULT_MESH_FEC_MAX_REPAIR_SYMBOLS,
            r.mesh_symbol_size == DEFAULT_MESH_FEC_SYMBOL_SIZE,
            !r.private_subnet_discovery,
            r.private_discovery_broadcast_port == 12345,
            r.private_discovery_mesh_port is None,
            r.fec_bind == local_socket(12001),
            !r.relay_controlled_local,
            r.relay_primary_peer is None,
            r.relay_primary_bind is None,
            r.relay_secondary_peer is None,
            r.relay_secondary_bind is None,
            r.relay_primary_id@ == "av-contrib-primary"@,
            !r.relay_primary_promoted,
            r.relay_secondary_id@ == "av-contrib-secondary"@,
            !r.relay_secondary_promoted,
            r.relay_topology_generation == 1,
            r.relay_subscription_id == 1,
            r.relay_forwards@.len() == 0,
            r.relay_failover_listeners@.len() == 0,
            r.relay_failover_controller is None,
            r.relay_primary_silence_ms == DEFAULT_RELAY_PRIMARY_SILENCE_MS,
            r.relay_primary_recovery_ms == DEFAULT_RELAY_PRIMARY_RECOVERY_MS,
            r.relay_secondary_warm_ms == DEFAULT_RELAY_SECONDARY_WARM_MS,
            r.relay_failover_heartbeat_ms == DEFAULT_RELAY_FAILOVER_HEARTBEAT_MS,
            r.relay_failover_lease_ms == DEFAULT_RELAY_FAILOVER_LEASE_MS,
            r.relay_max_downstream_children == DEFAULT_MAX_RELAY_DOWNSTREAM_CHILDREN,
            r.media_fec_bind == local_socket(12101),
            r.http_port == 9444,
            r.playback_base_url is None,
            !r.edge_websocket,
            !r.edge_webtransport,
            r.raw_tcp_port is None,
            !r.raw_tcp_tls,
            r.cert is None,
            r.key is None,
            r.stream_id == DEFAULT_STREAM_ID,
            r.part_ms == 50,
            r.parts_per_segment == 4,
            r.window_parts == 24,
            r.slot_kb == 2048,
            r.continent@ == "eu"@,
            r.latitude_bits == DEFAULT_LATITUDE_BITS,
            r.longitude_bits == DEFAULT_LONGITUDE_BITS,
            r.storage_bytes == 100_000_000_000,
            r.egress_capacity_bps == 10_000_000_000,
            r.baseline_per_region == 0,
            r.baseline_per_continent == 1,
            r.min_mirror_distance_km_bits == DEFAULT_MIN_MIRROR_DISTANCE_KM_BITS,
            r.telemetry_bind is None,
            r.telemetry_peers@.len() == 0,
            r.telemetry_dns_name@ == "local.wavey.ai"@,
            r.telemetry_private_ipv4 == 2_130_706_433,
            r.telemetry_interval_ms == 1000,
            r.telemetry_stale_ms == DEFAULT_TELEMETRY_STALE_MS,
            r.replication_plan_interval_ms == 1000,
            r.provision_command is None,
            !r.linode_provision,
            r.linode_image_id is None,
            r.linode_instance_type is None,
            r.linode_domain_id is None,
            r.linode_vlan_tag@ == "av-mesh"@,
            r.linode_token_env@ == "LINODE_API_TOKEN"@,
            r.linode_pub_key_env@ == "LINODE_PUB_KEY"@,
            r.linode_region_maps@.len() == 0,
            r.provision_timeout_ms == 30_000,
    {
        Args {
            region: "uk".to_owned(),
            node_id: None,
            mesh_bind: local(9101),
            peers: Vec::new(),
            mesh_sync_interval_ms: DEFAULT_MESH_SYNC_INTERVAL_MS,
            mesh_repair_symbols: DEFAULT_MESH_FEC_REPAIR_SYMBOLS,
            mesh_repair_ratio_bits: DEFAULT_MESH_FEC_REPAIR_RATIO_BITS,
            mesh_max_repair_symbols: DEFAULT_MESH_FEC_MAX_REPAIR_SYMBOLS,
            mesh_symbol_size: DEFAULT_MESH_FEC_SYMBOL_SIZE,
            private_subnet_discovery: false,
            private_discovery_broadcast_port: 12345,
            private_discovery_mesh_port: None,
            fec_bind: local(12001),
            relay_controlled_local: false,
            relay_primary_peer: None,
            relay_primary_bind: None,
            relay_secondary_peer: None,
            relay_secondary_bind: None,
            relay_primary_id: "av-contrib-primary".to_owned(),
            relay_primary_promoted: false,
            relay_secondary_id: "av-contrib-secondary".to_owned(),
            relay_secondary_promoted: false,
            relay_topology_generation: 1,
            relay_subscription_id: 1,
            relay_forwards: Vec::new(),
            relay_failover_listeners: Vec::new(),
            relay_failover_controller: None,
            relay_primary_silence_ms: DEFAULT_RELAY_PRIMARY_SILENCE_MS,
            relay_primary_recovery_ms: DEFAULT_RELAY_PRIMARY_RECOVERY_MS,
            relay_secondary_warm_ms: DEFAULT_RELAY_SECONDARY_WARM_MS,
            relay_failover_heartbeat_ms: DEFAULT_RELAY_FAILOVER_HEARTBEAT_MS,
            relay_failover_lease_ms: DEFAULT_RELAY_FAILOVER_LEASE_MS,
            relay_max_downstream_children: DEFAULT_MAX_RELAY_DOWNSTREAM_CHILDREN,
            media_fec_bind: local(12101),
            http_port: 9444,
            playback_base_url: None,
            edge_websocket: false,
            edge_webtransport: false,
            raw_tcp_port: None,
            raw_tcp_tls: false,
            cert: None,
            key: None,
            stream_id: DEFAULT_STREAM_ID,
            part_ms: 50,
            parts_per_segment: 4,
            window_parts: 24,
            slot_kb: 2048,
            continent: "eu".to_owned(),
            latitude_bits: DEFAULT_LATITUDE_BITS,
            longitude_bits: DEFAULT_LONGITUDE_BITS,
            storage_bytes: 100_000_000_000,
            egress_capacity_bps: 10_000_000_000,
            baseline_per_region: 0,
            baseline_per_continent: 1,
            min_mirror_distance_km_bits: DEFAULT_MIN_MIRROR_DISTANCE_KM_BITS,
            telemetry_bind: None,
            telemetry_peers: Vec::new(),
            telemetry_dns_name: "local.wavey.ai".to_owned(),
            telemetry_private_ipv4: 2_130_706_433,
            telemetry_interval_ms: 1000,
            telemetry_stale_ms: DEFAULT_TELEMETRY_STALE_MS,
            replication_plan_interval_ms: 1000,
            provision_command: None,
            linode_provision: false,
            linode_image_id: None,
            linode_instance_type: None,
            linode_domain_id: None,
            linode_vlan_tag: "av-mesh".to_owned(),
            linode_token_env: "LINODE_API_TOKEN".to_owned(),
            linode_pub_key_env: "LINODE_PUB_KEY".to_owned(),
            linode_region_maps: Vec::new(),
            provision_timeout_ms: 30_000,
        }
    }
}

/// What is wrong with a configuration.
#[derive(Clone, Copy, Debug, PartialEq, Eq, Structural)]
pub enum ArgsError {
    PartDuration,
    RepairRatio,
    PeersNeedControlled,
    PrimaryBindNeedsPeer,
    SecondaryBindNeedsPeer,
    PrimaryBindElsewhere,
    SecondaryPeerNeedsBind,
    SecondaryPromotedNeedsPeer,
    PrimaryPromotedNeedsPeer,
    SecondaryBindShared,
    ControlledNeedsPeer,
    PeersAlike,
    NoChildren,
    TooManyChildren { count: usize, limit: usize },
    ForwardToItself { address: SocketAddress },
    ForwardBindTaken { address: SocketAddress },
    ForwardBindTwice { address: SocketAddress },
    ForwardTargetTwice { address: SocketAddress },
    ControllerNeedsControlled,
    ControllerNeedsSecondary,
    ListenerNeedsControlled,
    ListenerTargetUnknown { address: SocketAddress },
    ListenerTargetNotRepair { address: SocketAddress },
    ListenerSockets,
    ControlBindTwice { address: SocketAddress },
    ControlTargetTwice { address: SocketAddress },
    ControllerSockets,
    FailoverWindows,
    FailoverLease,
    TopologyGeneration,
    Subscription,
    /// What is missing for provisioning: an image, a type, a domain.
    LinodeMissing { image: bool, instance: bool, domain: bool },
}

/// The names of what is missing for provisioning.
pub open spec fn missing_flags(image: bool, instance: bool, domain: bool) -> Seq<Seq<char>> {
    let none = Seq::<Seq<char>>::empty();
    (if image {
        seq!["--linode-image-id"@]
    } else {
        none
    }) + (if instance {
        seq!["--linode-instance-type"@]
    } else {
        none
    }) + (if domain {
        seq!["--linode-domain-id"@]
    } else {
        none
    })
}

impl ArgsError {
    /// The address that the message speaks of, where it does.
    pub open spec fn about(self) -> Option<SocketAddress> {
        match self {
            ArgsError::ForwardToItself { address } => Some(address),
            ArgsError::ForwardBindTaken { address } => Some(address),
            ArgsError::ForwardBindTwice { address } => Some(address),
            ArgsError::ForwardTargetTwice { address } => Some(address),
            ArgsError::ListenerTargetUnknown { address } => Some(address),
            ArgsError::ListenerTargetNotRepair { address } => Some(address),
            ArgsError::ControlBindTwice { address } => Some(address),
            ArgsError::ControlTargetTwice { address } => Some(address),
            _ => None,
        }
    }

    /// The address that the message speaks of, where it does.
    pub fn address(self) -> (r: Option<SocketAddress>)
        ensures
            r == self.about(),
    {
        match self {
            ArgsError::ForwardToItself { address } => Some(address),
            ArgsError::ForwardBindTaken { address } => Some(address),
            ArgsError::ForwardBindTwice { address } => Some(address),
            ArgsError::ForwardTargetTwice { address } => Some(address),
            ArgsError::ListenerTargetUnknown { address } => Some(address),
            ArgsError::ListenerTargetNotRepair { address } => Some(address),
            ArgsError::ControlBindTwice { address } => Some(address),
            ArgsError::ControlTargetTwice { address } => Some(address),
            _ => None,
        }
    }

    /// The message, where the text of the address that it speaks of is given.
    pub open spec fn text(self, address: Seq<char>) -> Seq<char> {
        match self {
            ArgsError::PartDuration => "--part-ms must be at least 1"@,
            ArgsError::RepairRatio =>
                "--mesh-repair-ratio must be a finite non-negative number"@,
            ArgsError::PeersNeedControlled =>
                "--relay-primary-peer/--relay-secondary-peer require --relay-controlled-local"@,
            ArgsError::PrimaryBindNeedsPeer =>
                "--relay-primary-bind requires --relay-primary-peer"@,
            ArgsError::SecondaryBindNeedsPeer =>
                "--relay-secondary-bind requires --relay-secondary-peer"@,
            ArgsError::PrimaryBindElsewhere =>
                "--relay-primary-bind currently shares the --fec-bind socket"@,
            ArgsError::SecondaryPeerNeedsBind =>
                "--relay-secondary-peer requires --relay-secondary-bind"@,
            ArgsError::SecondaryPromotedNeedsPeer =>
                "--relay-secondary-promoted requires --relay-secondary-peer"@,
            ArgsError::PrimaryPromotedNeedsPeer =>
                "--relay-primary-promoted requires --relay-primary-peer"@,
            ArgsError::SecondaryBindShared =>
                "--relay-secondary-bind must differ from --fec-bind"@,
            ArgsError::ControlledNeedsPeer =>
                "--relay-controlled-local requires at least one configured relay peer"@,
            ArgsError::PeersAlike =>
                "primary and secondary relay peer addresses must differ"@,
            ArgsError::NoChildren => "--relay-max-downstream-children must be positive"@,
            ArgsError::TooManyChildren { count, limit } => decimal(count as nat)
                + " --relay-forward subscriptions exceed the configured child limit "@ + decimal(
                limit as nat,
            ),
            ArgsError::ForwardToItself { .. } =>
                "RelaySession forward bind and target require distinct sockets; both resolve to "@
                + address,
            ArgsError::ForwardBindTaken { .. } => "RelaySession forward bind "@ + address
                + " conflicts with a RelaySession receive socket"@,
            ArgsError::ForwardBindTwice { .. } => "duplicate RelaySession forward bind "@
                + address,
            ArgsError::ForwardTargetTwice { .. } => "duplicate RelaySession forward target "@
                + address,
            ArgsError::ControllerNeedsControlled =>
                "--relay-failover-controller requires --relay-controlled-local"@,
            ArgsError::ControllerNeedsSecondary =>
                "--relay-failover-controller requires a seeded --relay-secondary-peer with --relay-secondary-promoted"@,
            ArgsError::ListenerNeedsControlled =>
                "--relay-failover-listener requires --relay-controlled-local"@,
            ArgsError::ListenerTargetUnknown { .. } => "failover listener target "@ + address
                + " is not a compiled --relay-forward target"@,
            ArgsError::ListenerTargetNotRepair { .. } => "failover listener target "@ + address
                + " must select a repair-only warm forward"@,
            ArgsError::ListenerSockets =>
                "failover listener requires a distinct, explicit local bind and controller peer"@,
            ArgsError::ControlBindTwice { .. } => "duplicate failover control bind "@ + address,
            ArgsError::ControlTargetTwice { .. } => "duplicate failover control target "@
                + address,
            ArgsError::ControllerSockets =>
                "failover controller requires a distinct, explicit local bind and target"@,
            ArgsError::FailoverWindows =>
                "relay failover windows require positive silence and recovery/warm windows at least as large as silence"@,
            ArgsError::FailoverLease =>
                "relay failover lease must be at most 60000ms and at least three heartbeat intervals"@,
            ArgsError::TopologyGeneration => "--relay-topology-generation must be positive"@,
            ArgsError::Subscription => "--relay-subscription-id must be positive"@,
            ArgsError::LinodeMissing { image, instance, domain } =>
                "--linode-provision requires "@ + joined(
                missing_flags(image, instance, domain),
                ", "@,
            ),
        }
    }

    /// The message, where the text of the address that it speaks of is given.
    pub fn message(self, address: &str) -> (r: String)
        ensures
            r@ == self.text(address@),
    {
        proof {
            reveal_strlit("");
            reveal_strlit(" conflicts with a RelaySession receive socket");
            reveal_strlit(" is not a compiled --relay-forward target");
            reveal_strlit(" must select a repair-only warm forward");
        }
        match self {
            ArgsError::PartDuration => "--part-ms must be at least 1".to_owned(),
            ArgsError::RepairRatio =>
                "--mesh-repair-ratio must be a finite non-negative number".to_owned(),
            ArgsError::PeersNeedControlled =>
                "--relay-primary-peer/--relay-secondary-peer require --relay-controlled-local".to_owned(),
            ArgsError::PrimaryBindNeedsPeer =>
                "--relay-primary-bind requires --relay-primary-peer".to_owned(),
            ArgsError::SecondaryBindNeedsPeer =>
                "--relay-secondary-bind requires --relay-secondary-peer".to_owned(),
            ArgsError::PrimaryBindElsewhere =>
                "--relay-primary-bind currently shares the --fec-bind socket".to_owned(),
            ArgsError::SecondaryPeerNeedsBind =>
                "--relay-secondary-peer requires --relay-secondary-bind".to_owned(),
            ArgsError::SecondaryPromotedNeedsPeer =>
                "--relay-secondary-promoted requires --relay-secondary-peer".to_owned(),
            ArgsError::PrimaryPromotedNeedsPeer =>
                "--relay-primary-promoted requires --relay-primary-peer".to_owned(),
            ArgsError::SecondaryBindShared =>
                "--relay-secondary-bind must differ from --fec-bind".to_owned(),
            ArgsError::ControlledNeedsPeer =>
                "--relay-controlled-local requires at least one configured relay peer".to_owned(),
            ArgsError::PeersAlike =>
                "primary and secondary relay peer addresses must differ".to_owned(),
            ArgsError::NoChildren => "--relay-max-downstream-children must be positive".to_owned(),
            ArgsError::TooManyChildren { count, limit } => {
                let mut out = decimal_text(count as u64);
                out.append(" --relay-forward subscriptions exceed the configured child limit ");
                out.append(decimal_text(limit as u64).as_str());
                out
            },
            ArgsError::ForwardToItself { .. } => around(
                "RelaySession forward bind and target require distinct sockets; both resolve to ",
                address,
                "",
            ),
            ArgsError::ForwardBindTaken { .. } => around(
                "RelaySession forward bind ",
                address,
                " conflicts with a RelaySession receive socket",
            ),
            ArgsError::ForwardBindTwice { .. } => around(
                "duplicate RelaySession forward bind ",
                address,
                "",
            ),
            ArgsError::ForwardTargetTwice { .. } => around(
                "duplicate RelaySession forward target ",
                address,
                "",
            ),
            ArgsError::ControllerNeedsControlled =>
                "--relay-failover-controller requires --relay-controlled-local".to_owned(),
            ArgsError::ControllerNeedsSecondary =>
                "--relay-failover-controller requires a seeded --relay-secondary-peer with --relay-secondary-promoted".to_owned(),
            ArgsError::ListenerNeedsControlled =>
                "--relay-failover-listener requires --relay-controlled-local".to_owned(),
            ArgsError::ListenerTargetUnknown { .. } => around(
                "failover listener target ",
                address,
                " is not a compiled --relay-forward target",
            ),
            ArgsError::ListenerTargetNotRepair { .. } => around(
                "failover listener target ",
                address,
                " must select a repair-only warm forward",
            ),
            ArgsError::ListenerSockets =>
                "failover listener requires a distinct, explicit local bind and controller peer".to_owned(),
            ArgsError::ControlBindTwice { .. } => around(
                "duplicate failover control bind ",
                address,
                "",
            ),
            ArgsError::ControlTargetTwice { .. } => around(
                "duplicate failover control target ",
                address,
                "",
            ),
            ArgsError::ControllerSockets =>
                "failover controller requires a distinct, explicit local bind and target".to_owned(),
            ArgsError::FailoverWindows =>
                "relay failover windows require positive silence and recovery/warm windows at least as large as silence".to_owned(),
            ArgsError::FailoverLease =>
                "relay failover lease must be at most 60000ms and at least three heartbeat intervals".to_owned(),
            ArgsError::TopologyGeneration => "--relay-topology-generation must be positive".to_owned(),
            ArgsError::Subscription => "--relay-subscription-id must be positive".to_owned(),
            ArgsError::LinodeMissing { image, instance, domain } => linode_message(
                image,
                instance,
                domain,
            ),
        }
    }
}

fn around(before: &str, address: &str, after: &str) -> (r: String)
    ensures
        r@ == if after@.len() == 0 {
            before@ + address@
        } else {
            before@ + address@ + after@
        },
{
    let mut out = before.to_owned();
    out.append(address);
    let ghost text = out@;
    out.append(after);
    proof {
        assert(after@.len() == 0 ==> out@ =~= text);
    }
    out
}

fn linode_message(image: bool, instance: bool, domain: bool) -> (r: String)
    ensures
        r@ == "--linode-provision requires "@ + joined(
            missing_flags(image, instance, domain),
            ", "@,
        ),
{
    let mut missing: Vec<String> = Vec::new();
    if image {
        missing.push("--linode-image-id".to_owned());
    }
    if instance {
        missing.push("--linode-instance-type".to_owned());
    }
    if domain {
        missing.push("--linode-domain-id".to_owned());
    }
    proof {
        assert(views(missing@) =~= missing_flags(image, instance, domain));
    }
    let mut out = "--linode-provision requires ".to_owned();
    out.append(join(&missing, ", ").as_str());
    out
}

/// Whether the bits of a single are those of a finite number that is not negative.
pub open spec fn is_ratio(bits: u32) -> bool {
    let magnitude = bits as int % 0x8000_0000;
    magnitude < 0x7f80_0000 && (bits < 0x8000_0000u32 || magnitude == 0)
}

fn ratio_fits(bits: u32) -> (r: bool)
    ensures
        r == is_ratio(bits),
{
    let magnitude: u32 = bits % 0x8000_0000;
    magnitude < 0x7f80_0000 && (bits < 0x8000_0000 || magnitude == 0)
}

/// The larger of two sizes.
pub open spec fn size_at_least(size: usize, least: int) -> usize {
    if size >= least {
        size
    } else {
        least as usize
    }
}

/// The larger of two numbers.
pub open spec fn at_least(n: u64, least: int) -> u64 {
    if n >= least {
        n
    } else {
        least as u64
    }
}

fn larger_size(size: usize, least: usize) -> (r: usize)
    ensures
        r == size_at_least(size, least as int),
{
    if size >= least {
        size
    } else {
        least
    }
}

fn larger_number(n: u64, least: u64) -> (r: u64)
    ensures
        r == at_least(n, least as int),
{
    if n >= least {
        n
    } else {
        least
    }
}

/// What is wrong with the first `k` children, where something is.
pub open spec fn forward_refusal(
    forwards: Seq<RelayForwardEndpoint>,
    k: int,
    fec_bind: SocketAddress,
    secondary_bind: Option<SocketAddress>,
) -> Option<ArgsError>
    decreases k,
{
    if k <= 0 {
        None
    } else {
        let forward = forwards[k - 1];
        match forward_refusal(forwards, k - 1, fec_bind, secondary_bind) {
            Some(error) => Some(error),
            None => if forward.bind == forward.target {
                Some(ArgsError::ForwardToItself { address: forward.bind })
            } else if forward.bind == fec_bind || Some(forward.bind) == secondary_bind {
                Some(ArgsError::ForwardBindTaken { address: forward.bind })
            } else if exists|j: int|
                0 <= j < k - 1 && (#[trigger] forwards[j]).bind == forward.bind {
                Some(ArgsError::ForwardBindTwice { address: forward.bind })
            } else if exists|j: int|
                0 <= j < k - 1 && (#[trigger] forwards[j]).target == forward.target {
                Some(ArgsError::ForwardTargetTwice { address: forward.target })
            } else {
                None
            },
        }
    }
}

/// The first child with an address.
pub open spec fn forward_to(forwards: Seq<RelayForwardEndpoint>, target: SocketAddress) -> Option<
    RelayForwardEndpoint,
>
    decreases forwards.len(),
{
    if forwards.len() == 0 {
        None
    } else if forwards[0].target == target {
        Some(forwards[0])
    } else {
        forward_to(forwards.skip(1), target)
    }
}

/// Whether one of the first `k` listeners has a local socket.
pub open spec fn listens_at(
    listeners: Seq<RelayFailoverListenerEndpoint>,
    k: int,
    bind: SocketAddress,
) -> bool {
    exists|j: int| 0 <= j < k && (#[trigger] listeners[j]).bind == bind
}

/// Whether one of the first `k` listeners is about a child.
pub open spec fn listens_for(
    listeners: Seq<RelayFailoverListenerEndpoint>,
    k: int,
    target: SocketAddress,
) -> bool {
    exists|j: int| 0 <= j < k && (#[trigger] listeners[j]).forward_target == target
}

/// What is wrong with the first `k` listeners, where something is.
pub open spec fn listener_refusal(
    listeners: Seq<RelayFailoverListenerEndpoint>,
    k: int,
    forwards: Seq<RelayForwardEndpoint>,
) -> Option<ArgsError>
    decreases k,
{
    if k <= 0 {
        None
    } else {
        let listener = listeners[k - 1];
        match listener_refusal(listeners, k - 1, forwards) {
            Some(error) => Some(error),
            None => match forward_to(forwards, listener.forward_target) {
                None => Some(
                    ArgsError::ListenerTargetUnknown { address: listener.forward_target },
                ),
                Some(forward) => if forward.role != RelayForwardRole::Repair {
                    Some(ArgsError::ListenerTargetNotRepair { address: listener.forward_target })
                } else if listener.bind == listener.peer || listener.bind.ip.unspecified() {
                    Some(ArgsError::ListenerSockets)
                } else if listens_at(listeners, k - 1, listener.bind) {
                    Some(ArgsError::ControlBindTwice { address: listener.bind })
                } else if listens_for(listeners, k - 1, listener.forward_target) {
                    Some(ArgsError::ControlTargetTwice { address: listener.forward_target })
                } else {
                    None
                },
            },
        }
    }
}

/// What is wrong with a controller, where something is.
pub open spec fn controller_refusal(
    controller: Option<RelayFailoverControllerEndpoint>,
    listeners: Seq<RelayFailoverListenerEndpoint>,
) -> Option<ArgsError> {
    match controller {
        None => None,
        Some(controller) => if controller.bind == controller.target
            || controller.bind.ip.unspecified() {
            Some(ArgsError::ControllerSockets)
        } else if listens_at(listeners, listeners.len() as int, controller.bind) {
            Some(ArgsError::ControlBindTwice { address: controller.bind })
        } else {
            None
        },
    }
}

impl Args {
    /// Where the primary sends to: where the node receives, if nothing else is said.
    pub open spec fn primary_bind(self) -> Option<SocketAddress> {
        if self.relay_primary_peer is Some && self.relay_primary_bind is None {
            Some(self.fec_bind)
        } else {
            self.relay_primary_bind
        }
    }

    /// What is wrong with the parents of the relay, where something is.
    pub open spec fn parent_refusal(self) -> Option<ArgsError> {
        let primary = self.relay_primary_peer;
        let secondary = self.relay_secondary_peer;
        if (primary is Some || secondary is Some) && !self.relay_controlled_local {
            Some(ArgsError::PeersNeedControlled)
        } else if self.relay_primary_bind is Some && primary is None {
            Some(ArgsError::PrimaryBindNeedsPeer)
        } else if self.relay_secondary_bind is Some && secondary is None {
            Some(ArgsError::SecondaryBindNeedsPeer)
        } else if self.primary_bind() is Some && self.primary_bind() != Some(self.fec_bind) {
            Some(ArgsError::PrimaryBindElsewhere)
        } else if secondary is Some && self.relay_secondary_bind is None {
            Some(ArgsError::SecondaryPeerNeedsBind)
        } else if self.relay_secondary_promoted && secondary is None {
            Some(ArgsError::SecondaryPromotedNeedsPeer)
        } else if self.relay_primary_promoted && primary is None {
            Some(ArgsError::PrimaryPromotedNeedsPeer)
        } else if self.relay_secondary_bind == Some(self.fec_bind) {
            Some(ArgsError::SecondaryBindShared)
        } else if self.relay_controlled_local && primary is None && secondary is None {
            Some(ArgsError::ControlledNeedsPeer)
        } else if primary is Some && primary == secondary {
            Some(ArgsError::PeersAlike)
        } else {
            None
        }
    }

    /// What is wrong with the children of the relay, where something is.
    pub open spec fn children_refusal(self) -> Option<ArgsError> {
        let forwards = self.relay_forwards@;
        if self.relay_max_downstream_children == 0 {
            Some(ArgsError::NoChildren)
        } else if forwards.len() > self.relay_max_downstream_children {
            Some(
                ArgsError::TooManyChildren {
                    count: forwards.len() as usize,
                    limit: self.relay_max_downstream_children,
                },
            )
        } else {
            forward_refusal(
                forwards,
                forwards.len() as int,
                self.fec_bind,
                self.relay_secondary_bind,
            )
        }
    }

    /// What is wrong with the failover of the relay, where something is.
    pub open spec fn failover_refusal(self) -> Option<ArgsError> {
        let listeners = self.relay_failover_listeners@;
        if self.relay_failover_controller is Some && !self.relay_controlled_local {
            Some(ArgsError::ControllerNeedsControlled)
        } else if self.relay_failover_controller is Some && (self.relay_secondary_peer is None
            || !self.relay_secondary_promoted) {
            Some(ArgsError::ControllerNeedsSecondary)
        } else if listeners.len() > 0 && !self.relay_controlled_local {
            Some(ArgsError::ListenerNeedsControlled)
        } else {
            match listener_refusal(listeners, listeners.len() as int, self.relay_forwards@) {
                Some(error) => Some(error),
                None => controller_refusal(self.relay_failover_controller, listeners),
            }
        }
    }

    /// What is wrong with the times and numbers of the relay, where something is.
    pub open spec fn timing_refusal(self) -> Option<ArgsError> {
        if self.relay_primary_silence_ms == 0 || self.relay_primary_recovery_ms
            < self.relay_primary_silence_ms || self.relay_secondary_warm_ms
            < self.relay_primary_silence_ms {
            Some(ArgsError::FailoverWindows)
        } else if self.relay_failover_heartbeat_ms == 0 || self.relay_failover_lease_ms < 3
            * self.relay_failover_heartbeat_ms || self.relay_failover_lease_ms
            > MAX_RELAY_FAILOVER_LEASE_MS {
            Some(ArgsError::FailoverLease)
        } else if self.relay_topology_generation == 0 {
            Some(ArgsError::TopologyGeneration)
        } else if self.relay_subscription_id == 0 {
            Some(ArgsError::Subscription)
        } else {
            None
        }
    }

    /// What is missing for provisioning, where something is.
    pub open spec fn linode_refusal(self) -> Option<ArgsError> {
        let image = self.linode_image_id is None;
        let instance = self.linode_instance_type is None;
        let domain = self.linode_domain_id is None;
        if self.linode_provision && (image || instance || domain) {
            Some(ArgsError::LinodeMissing { image, instance, domain })
        } else {
            None
        }
    }

    /// The first thing that is wrong with a configuration, where something is.
    pub open spec fn refusal(self) -> Option<ArgsError> {
        if self.part_ms == 0 {
            Some(ArgsError::PartDuration)
        } else if !is_ratio(self.mesh_repair_ratio_bits) {
            Some(ArgsError::RepairRatio)
        } else if self.parent_refusal() is Some {
            self.parent_refusal()
        } else if self.children_refusal() is Some {
            self.children_refusal()
        } else if self.failover_refusal() is Some {
            self.failover_refusal()
        } else if self.timing_refusal() is Some {
            self.timing_refusal()
        } else {
            self.linode_refusal()
        }
    }

    /// A configuration with what is too small made large enough, and with the socket of the
    /// primary.
    pub open spec fn settled(self) -> Args {
        let parts_per_segment = size_at_least(self.parts_per_segment, 1);
        let slot_kb = size_at_least(self.slot_kb, 64);
        Args {
            parts_per_segment,
            window_parts: size_at_least(
                size_at_least(self.window_parts, parts_per_segment * 3),
                6,
            ),
            slot_kb,
            storage_bytes: at_least(self.storage_bytes, slot_kb * 1024),
            egress_capacity_bps: at_least(self.egress_capacity_bps, 1),
            mesh_sync_interval_ms: at_least(self.mesh_sync_interval_ms, 1),
            mesh_symbol_size: if self.mesh_symbol_size == 0 {
                1
            } else {
                self.mesh_symbol_size
            },
            mesh_max_repair_symbols: if self.mesh_max_repair_symbols < self.mesh_repair_symbols {
                self.mesh_repair_symbols
            } else {
                self.mesh_max_repair_symbols
            },
            relay_primary_bind: self.primary_bind(),
            telemetry_interval_ms: at_least(self.telemetry_interval_ms, 100),
            replication_plan_interval_ms: at_least(self.replication_plan_interval_ms, 100),
            provision_timeout_ms: at_least(self.provision_timeout_ms, 100),
            ..self
        }
    }

    /// Whether the sizes that a configuration asks for can be counted.
    pub open spec fn countable(self) -> bool {
        self.parts_per_segment * 3 <= usize::MAX && self.slot_kb * 1024 <= u64::MAX
    }

    fn check_parents(&self) -> (r: Option<ArgsError>)
        ensures
            r == self.parent_refusal(),
    {
        let primary: bool = self.relay_primary_peer.is_some();
        let secondary: bool = self.relay_secondary_peer.is_some();
        if (primary || secondary) && !self.relay_controlled_local {
            return Some(ArgsError::PeersNeedControlled);
        }
        if self.relay_primary_bind.is_some() && !primary {
            return Some(ArgsError::PrimaryBindNeedsPeer);
        }
        if self.relay_secondary_bind.is_some() && !secondary {
            return Some(ArgsError::SecondaryBindNeedsPeer);
        }
        if let Some(bind) = self.relay_primary_bind {
            if bind != self.fec_bind {
                return Some(ArgsError::PrimaryBindElsewhere);
            }
        }
        if secondary && self.relay_secondary_bind.is_none() {
            return Some(ArgsError::SecondaryPeerNeedsBind);
        }
        if self.relay_secondary_promoted && !secondary {
            return Some(ArgsError::SecondaryPromotedNeedsPeer);
        }
        if self.relay_primary_promoted && !primary {
            return Some(ArgsError::PrimaryPromotedNeedsPeer);
        }
        if let Some(bind) = self.relay_secondary_bind {
            if bind == self.fec_bind {
                return Some(ArgsError::SecondaryBindShared);
            }
        }
        if self.relay_controlled_local && !primary && !secondary {
            return Some(ArgsError::ControlledNeedsPeer);
        }
        if let Some(first) = self.relay_primary_peer {
            if let Some(second) = self.relay_secondary_peer {
                if first == second {
                    return Some(ArgsError::PeersAlike);
                }
            }
        }
        None
    }

    fn check_children(&self) -> (r: Option<ArgsError>)
        ensures
            r == self.children_refusal(),
    {
        if self.relay_max_downstream_children == 0 {
            return Some(ArgsError::NoChildren);
        }
        if self.relay_forwards.len() > self.relay_max_downstream_children {
            return Some(
                ArgsError::TooManyChildren {
                    count: self.relay_forwards.len(),
                    limit: self.relay_max_downstream_children,
                },
            );
        }
        let mut refused: Option<ArgsError> = None;
        let mut i: usize = 0;
        while i < self.relay_forwards.len()
            invariant
                i <= self.relay_forwards.len(),
                refused == forward_refusal(
                    self.relay_forwards@,
                    i as int,
                    self.fec_bind,
                    self.relay_secondary_bind,
                ),
            decreases self.relay_forwards.len() - i,
        {
            if refused.is_none() {
                refused = self.check_forward(i);
            }
            i = i + 1;
        }
        refused
    }

    fn check_forward(&self, i: usize) -> (r: Option<ArgsError>)
        requires
            i < self.relay_forwards@.len(),
            forward_refusal(
                self.relay_forwards@,
                i as int,
                self.fec_bind,
                self.relay_secondary_bind,
            ) is None,
        ensures
            r == forward_refusal(
                self.relay_forwards@,
                i + 1,
                self.fec_bind,
                self.relay_secondary_bind,
            ),
    {
        let forward = self.relay_forwards[i];
        if forward.bind == forward.target {
            return Some(ArgsError::ForwardToItself { address: forward.bind });
        }
        let secondary: bool = match self.relay_secondary_bind {
            Some(bind) => forward.bind == bind,
            None => false,
        };
        if forward.bind == self.fec_bind || secondary {
            return Some(ArgsError::ForwardBindTaken { address: forward.bind });
        }
        let mut bind_taken: bool = false;
        let mut target_taken: bool = false;
        let mut j: usize = 0;
        while j < i
            invariant
                i < self.relay_forwards@.len(),
                j <= i,
                bind_taken == exists|m: int|
                    0 <= m < j && (#[trigger] self.relay_forwards@[m]).bind == forward.bind,
                target_taken == exists|m: int|
                    0 <= m < j && (#[trigger] self.relay_forwards@[m]).target == forward.target,
            decreases i - j,
        {
            if self.relay_forwards[j].bind == forward.bind {
                bind_taken = true;
            }
            if self.relay_forwards[j].target == forward.target {
                target_taken = true;
            }
            j = j + 1;
        }
        if bind_taken {
            return Some(ArgsError::ForwardBindTwice { address: forward.bind });
        }
        if target_taken {
            return Some(ArgsError::ForwardTargetTwice { address: forward.target });
        }
        None
    }

    fn find_forward(&self, target: SocketAddress) -> (r: Option<RelayForwardEndpoint>)
        ensures
            r == forward_to(self.relay_forwards@, target),
    {
        let ghost forwards = self.relay_forwards@;
        let mut i: usize = 0;
        proof {
            assert(forwards.skip(0) =~= forwards);
        }
        while i < self.relay_forwards.len()
            invariant
                forwards == self.relay_forwards@,
                i <= forwards.len(),
                forward_to(forwards, target) == forward_to(forwards.skip(i as int), target),
            decreases forwards.len() - i,
        {
            proof {
                assert(forwards.skip(i as int)[0] == forwards[i as int]);
                assert(forwards.skip(i as int).skip(1) =~= forwards.skip(i + 1));
            }
            if self.relay_forwards[i].target == target {
                return Some(self.relay_forwards[i]);
            }
            i = i + 1;
        }
        None
    }

    fn binds_before(&self, k: usize, bind: SocketAddress) -> (r: bool)
        requires
            k <= self.relay_failover_listeners@.len(),
        ensures
            r == listens_at(self.relay_failover_listeners@, k as int, bind),
    {
        let mut j: usize = 0;
        while j < k
            invariant
                k <= self.relay_failover_listeners@.len(),
                j <= k,
                !listens_at(self.relay_failover_listeners@, j as int, bind),
            decreases k - j,
        {
            if self.relay_failover_listeners[j].bind == bind {
                assert(self.relay_failover_listeners@[j as int].bind == bind);
                return true;
            }
            j = j + 1;
        }
        false
    }

    fn targets_before(&self, k: usize, target: SocketAddress) -> (r: bool)
        requires
            k <= self.relay_failover_listeners@.len(),
        ensures
            r == listens_for(self.relay_failover_listeners@, k as int, target),
    {
        let mut j: usize = 0;
        while j < k
            invariant
                k <= self.relay_failover_listeners@.len(),
                j <= k,
                !listens_for(self.relay_failover_listeners@, j as int, target),
            decreases k - j,
        {
            if self.relay_failover_listeners[j].forward_target == target {
                assert(self.relay_failover_listeners@[j as int].forward_target == target);
                return true;
            }
            j = j + 1;
        }
        false
    }

    fn check_listener(&self, i: usize) -> (r: Option<ArgsError>)
        requires
            i < self.relay_failover_listeners@.len(),
            listener_refusal(
                self.relay_failover_listeners@,
                i as int,
                self.relay_forwards@,
            ) is None,
        ensures
            r == listener_refusal(
                self.relay_failover_listeners@,
                i + 1,
                self.relay_forwards@,
            ),
    {
        let listener = self.relay_failover_listeners[i];
        let forward = match self.find_forward(listener.forward_target) {
            Some(forward) => forward,
            None => {
                return Some(
                    ArgsError::ListenerTargetUnknown { address: listener.forward_target },
                );
            },
        };
        if forward.role != RelayForwardRole::Repair {
            return Some(ArgsError::ListenerTargetNotRepair { address: listener.forward_target });
        }
        if listener.bind == listener.peer || listener.bind.ip.is_unspecified() {
            return Some(ArgsError::ListenerSockets);
        }
        if self.binds_before(i, listener.bind) {
            return Some(ArgsError::ControlBindTwice { address: listener.bind });
        }
        if self.targets_before(i, listener.forward_target) {
            return Some(ArgsError::ControlTargetTwice { address: listener.forward_target });
        }
        None
    }

    fn check_failover(&self) -> (r: Option<ArgsError>)
        ensures
            r == self.failover_refusal(),
    {
        if self.relay_failover_controller.is_some() {
            if !self.relay_controlled_local {
                return Some(ArgsError::ControllerNeedsControlled);
            }
            if self.relay_secondary_peer.is_none() || !self.relay_secondary_promoted {
                return Some(ArgsError::ControllerNeedsSecondary);
            }
        }
        if self.relay_failover_listeners.len() > 0 && !self.relay_controlled_local {
            return Some(ArgsError::ListenerNeedsControlled);
        }
        let mut refused: Option<ArgsError> = None;
        let mut i: usize = 0;
        while i < self.relay_failover_listeners.len()
            invariant
                i <= self.relay_failover_listeners.len(),
                refused == listener_refusal(
                    self.relay_failover_listeners@,
                    i as int,
                    self.relay_forwards@,
                ),
            decreases self.relay_failover_listeners.len() - i,
        {
            if refused.is_none() {
                refused = self.check_listener(i);
            }
            i = i + 1;
        }
        if refused.is_some() {
            return refused;
        }
        if let Some(controller) = self.relay_failover_controller {
            if controller.bind == controller.target || controller.bind.ip.is_unspecified() {
                return Some(ArgsError::ControllerSockets);
            }
            if self.binds_before(self.relay_failover_listeners.len(), controller.bind) {
                return Some(ArgsError::ControlBindTwice { address: controller.bind });
            }
        }
        None
    }

    fn check_timing(&self) -> (r: Option<ArgsError>)
        ensures
            r == self.timing_refusal(),
    {
        if self.relay_primary_silence_ms == 0 || self.relay_primary_recovery_ms
            < self.relay_primary_silence_ms || self.relay_secondary_warm_ms
            < self.relay_primary_silence_ms {
            return Some(ArgsError::FailoverWindows);
        }
        let enough: bool = match self.relay_failover_heartbeat_ms.checked_mul(3) {
            Some(least) => self.relay_failover_lease_ms >= least,
            None => false,
        };
        if self.relay_failover_heartbeat_ms == 0 || !enough || self.relay_failover_lease_ms
            > MAX_RELAY_FAILOVER_LEASE_MS {
            return Some(ArgsError::FailoverLease);
        }
        if self.relay_topology_generation == 0 {
            return Some(ArgsError::TopologyGeneration);
        }
        if self.relay_subscription_id == 0 {
            return Some(ArgsError::Subscription);
        }
        None
    }

    /// Tells what is missing for provisioning, where something is.
    pub fn validate_linode_provision(&self) -> (r: Result<(), ArgsError>)
        ensures
            r == match self.linode_refusal() {
                Some(error) => Err::<(), ArgsError>(error),
                None => Ok::<(), ArgsError>(()),
            },
    {
        if !self.linode_provision {
            return Ok(());
        }
        let image: bool = self.linode_image_id.is_none();
        let instance: bool = self.linode_instance_type.is_none();
        let domain: bool = self.linode_domain_id.is_none();
        if image || instance || domain {
            Err(ArgsError::LinodeMissing { image, instance, domain })
        } else {
            Ok(())
        }
    }

    fn check(&self) -> (r: Option<ArgsError>)
        ensures
            r == self.refusal(),
    {
        if self.part_ms == 0 {
            return Some(ArgsError::PartDuration);
        }
        if !ratio_fits(self.mesh_repair_ratio_bits) {
            return Some(ArgsError::RepairRatio);
        }
        let parents = self.check_parents();
        if parents.is_some() {
            return parents;
        }
        let children = self.check_children();
        if children.is_some() {
            return children;
        }
        let failover = self.check_failover();
        if failover.is_some() {
            return failover;
        }
        let timing = self.check_timing();
        if timing.is_some() {
            return timing;
        }
        match self.validate_linode_provision() {
            Ok(()) => None,
            Err(error) => Some(error),
        }
    }

    /// Checks a configuration, and makes what is too small in it large enough.
    pub fn normalized(self) -> (r: Result<Self, ArgsError>)
        requires
            self.countable(),
        ensures
            match r {
                Ok(args) => self.refusal() is None && args == self.settled(),
                Err(error) => self.refusal() == Some(error),
            },
    {
        if let Some(error) = self.check() {
            return Err(error);
        }
        let parts_per_segment = larger_size(self.parts_per_segment, 1);
        let window_parts = larger_size(
            larger_size(self.window_parts, parts_per_segment * 3),
            6,
        );
        let slot_kb = larger_size(self.slot_kb, 64);
        let storage_bytes = larger_number(self.storage_bytes, (slot_kb as u64) * 1024);
        let mesh_symbol_size: u16 = if self.mesh_symbol_size == 0 {
            1
        } else {
            self.mesh_symbol_size
        };
        let mesh_max_repair_symbols: u32 = if self.mesh_max_repair_symbols
            < self.mesh_repair_symbols {
            self.mesh_repair_symbols
        } else {
            self.mesh_max_repair_symbols
        };
        let relay_primary_bind = if self.relay_primary_peer.is_some()
            && self.relay_primary_bind.is_none() {
            Some(self.fec_bind)
        } else {
            self.relay_primary_bind
        };
        Ok(
            Args {
                parts_per_segment,
                window_parts,
                slot_kb,
                storage_bytes,
                egress_capacity_bps: larger_number(self.egress_capacity_bps, 1),
                mesh_sync_interval_ms: larger_number(self.mesh_sync_interval_ms, 1),
                mesh_symbol_size,
                mesh_max_repair_symbols,
                relay_primary_bind,
                telemetry_interval_ms: larger_number(self.telemetry_interval_ms, 100),
                replication_plan_interval_ms: larger_number(
                    self.replication_plan_interval_ms,
                    100,
                ),
                provision_timeout_ms: larger_number(self.provision_timeout_ms, 100),
                ..self
            },
        )
    }

    /// How nodes are made at the provider, where they are.
    pub fn linode_provision_config(&self) -> (r: Option<LinodeProvisionConfig>)
        ensures
            r is Some <==> self.linode_provision,
            match r {
                Some(config) => {
                    &&& config.token_env == self.linode_token_env
                    &&& config.pub_key_env == self.linode_pub_key_env
                    &&& config.image_id@ == or_empty(self.linode_image_id)
                    &&& config.instance_type@ == or_empty(self.linode_instance_type)
                    &&& config.domain_id == match self.linode_domain_id {
                        Some(id) => id,
                        None => 0,
                    }
                    &&& config.vlan_tag == self.linode_vlan_tag
                    &&& distinct_pairs(config.region_map@)
                    &&& forall|key: Seq<char>| #[trigger]
                        pair_value(config.region_map@, key) == pair_value(
                            self.linode_region_maps@,
                            key,
                        )
                },
                None => true,
            },
    {
        if !self.linode_provision {
            return None;
        }
        let domain_id: u64 = match self.linode_domain_id {
            Some(id) => id,
            None => 0,
        };
        Some(
            LinodeProvisionConfig {
                token_env: self.linode_token_env.clone(),
                pub_key_env: self.linode_pub_key_env.clone(),
                image_id: text_or_empty(&self.linode_image_id),
                instance_type: text_or_empty(&self.linode_instance_type),
                domain_id,
                vlan_tag: self.linode_vlan_tag.clone(),
                region_map: collect_region_map(&self.linode_region_maps),
            },
        )
    }

    /// The name of the node: that of its region where it has none.
    pub fn node_name(&self) -> (r: String)
        ensures
            r == match self.node_id {
                Some(id) => id,
                None => self.region,
            },
    {
        match &self.node_id {
            Some(id) => id.clone(),
            None => self.region.clone(),
        }
    }

    /// The node, before it holds anything.
    pub fn node_profile(&self) -> (r: MeshNode)
        ensures
            r == (MeshNode {
                node_id: match self.node_id {
                    Some(id) => id,
                    None => self.region,
                },
                region: self.region,
                continent: self.continent,
                latitude_bits: self.latitude_bits,
                longitude_bits: self.longitude_bits,
                total_storage_bytes: self.storage_bytes,
                used_storage_bytes: 0,
                egress_capacity_bps: self.egress_capacity_bps,
                contributor_streams: 0,
                active_streams: 0,
                draining: false,
            }),
    {
        MeshNode {
            node_id: self.node_name(),
            region: self.region.clone(),
            continent: self.continent.clone(),
            latitude_bits: self.latitude_bits,
            longitude_bits: self.longitude_bits,
            total_storage_bytes: self.storage_bytes,
            used_storage_bytes: 0,
            egress_capacity_bps: self.egress_capacity_bps,
            contributor_streams: 0,
            active_streams: 0,
            draining: false,
        }
    }

    /// How the cache mesh is carried.
    pub fn mesh_transport(&self) -> (r: MeshTransportConfigSnapshot)
        ensures
            r == (MeshTransportConfigSnapshot {
                sync_interval_ms: self.mesh_sync_interval_ms,
                min_repair_symbols: self.mesh_repair_symbols,
                repair_ratio_bits: self.mesh_repair_ratio_bits,
                max_repair_symbols: self.mesh_max_repair_symbols,
                symbol_size: self.mesh_symbol_size,
            }),
    {
        MeshTransportConfigSnapshot {
            sync_interval_ms: self.mesh_sync_interval_ms,
            min_repair_symbols: self.mesh_repair_symbols,
            repair_ratio_bits: self.mesh_repair_ratio_bits,
            max_repair_symbols: self.mesh_max_repair_symbols,
            symbol_size: self.mesh_symbol_size,
        }
    }

    /// The port at which nodes on the private network are taken to run the mesh.
    pub fn discovery_mesh_port(&self) -> (r: u16)
        ensures
            r == match self.private_discovery_mesh_port {
                Some(port) => port,
                None => self.mesh_bind.port,
            },
    {
        match self.private_discovery_mesh_port {
            Some(port) => port,
            None => self.mesh_bind.port,
        }
    }
}

/// An optional text; the empty one where there is none.
pub open spec fn or_empty(text: Option<String>) -> Seq<char> {
    match text {
        Some(text) => text@,
        None => ""@,
    }
}

fn text_or_empty(text: &Option<String>) -> (r: String)
    ensures
        r@ == or_empty(*text),
{
    match text {
        Some(text) => text.clone(),
        None => "".to_owned(),
    }
}

/// A configuration that was normalized is normal: it is refused for nothing, and stays as it
/// is.
pub proof fn normalized_is_final(args: Args)
    requires
        args.countable(),
        args.refusal() is None,
    ensures
        args.settled().refusal() is None,
        args.settled().settled() == args.settled(),
{
    let settled = args.settled();
    assert(settled.parent_refusal() is None);
    assert(settled.children_refusal() is None);
    assert(settled.failover_refusal() is None);
    assert(settled.timing_refusal() is None);
    assert(settled.linode_refusal() is None);
}

/// What a normalized configuration promises the node: parts of some duration, a window of
/// three segments at least, room for a slot, and leases that outlive three heartbeats.
pub proof fn normalized_bounds(args: Args)
    requires
        args.countable(),
        args.refusal() is None,
    ensures
        ({
            let r = args.settled();
            &&& r.part_ms >= 1
            &&& r.parts_per_segment >= 1
            &&& r.window_parts >= 6 && r.window_parts >= 3 * r.parts_per_segment
            &&& r.slot_kb >= 64 && r.storage_bytes >= r.slot_kb * 1024
            &&& r.mesh_max_repair_symbols >= r.mesh_repair_symbols
            &&& r.relay_primary_peer is Some ==> r.relay_primary_bind == Some(r.fec_bind)
            &&& r.relay_failover_lease_ms >= 3 * r.relay_failover_heartbeat_ms
            &&& r.relay_primary_recovery_ms >= r.relay_primary_silence_ms > 0
        }),
{
}

/// Where the certificate of a node comes from.
#[derive(Debug)]
pub enum TlsChoice {
    Files { cert: String, key: String },
    /// The files that come with the service.
    Usual,
}

/// Where the certificate of a node comes from: two files or none; one alone is refused.
pub fn load_tls(cert: &Option<String>, key: &Option<String>) -> (r: Result<TlsChoice, String>)
    ensures
        match (*cert, *key) {
            (Some(cert), Some(key)) => r == Ok::<TlsChoice, String>(TlsChoice::Files { cert, key }),
            (None, None) => r == Ok::<TlsChoice, String>(TlsChoice::Usual),
            _ => r is Err && r->Err_0@ == "--cert and --key must be provided together"@,
        },
{
    match (cert, key) {
        (Some(cert), Some(key)) => Ok(TlsChoice::Files { cert: cert.clone(), key: key.clone() }),
        (None, None) => Ok(TlsChoice::Usual),
        _ => Err("--cert and --key must be provided together".to_owned()),
    }
}

/// Which path of a relay a parent is on.
#[derive(Clone, Copy, Debug, PartialEq, Eq, Structural)]
pub enum ParentPath {
    Primary,
    Secondary,
    /// Both source and repair symbols may come this way.
    PromotedSecondary,
}

/// A parent of a relay.
#[derive(Debug)]
pub struct RelayParent {
    pub session_id: u64,
    pub peer: SocketAddress,
    pub node_id: String,
    pub path: ParentPath,
}

/// What is wrong with the sessions of a relay.
#[derive(Debug, PartialEq, Eq, Structural)]
pub enum SessionError {
    LocalIdentity,
    TopologyGeneration,
    Subscription,
    /// The identity of the first or of the second parent.
    PrimaryIdentity,
    SecondaryIdentity,
}

/// Whether a character controls rather than prints.
pub open spec fn is_control_char(c: char) -> bool {
    c < ' ' || ('\u{7f}' <= c && c <= '\u{9f}')
}

/// Whether a text can name a node: it is not empty, takes at most 128 bytes, and holds no
/// control character.
pub open spec fn names_node(text: Seq<char>) -> bool {
    &&& text.len() > 0
    &&& encode_utf8(text).len() <= 128
    &&& forall|i: int| 0 <= i < text.len() ==> !is_control_char(#[trigger] text[i])
}

/// Calls `NodeId::new` of `relay_session`, which takes a text that is not empty, is no longer
/// than the hard limit of 128 bytes, and holds no control character.
#[verifier::external_body]
fn is_node_id(text: &str) -> (r: bool)
    ensures
        r == names_node(text@),
{
    relay_session::NodeId::new(text).is_ok()
}

impl Args {
    /// The path that the first parent is on.
    pub open spec fn first_path(self) -> ParentPath {
        if self.relay_primary_promoted {
            ParentPath::PromotedSecondary
        } else {
            ParentPath::Primary
        }
    }

    /// The path that the second parent is on.
    pub open spec fn second_path(self) -> ParentPath {
        if self.relay_secondary_promoted {
            ParentPath::PromotedSecondary
        } else {
            ParentPath::Secondary
        }
    }

    /// The parents of the relay.
    pub open spec fn parents(self) -> Seq<RelayParent> {
        let none = Seq::<RelayParent>::empty();
        (match self.relay_primary_peer {
            Some(peer) => seq![
                RelayParent {
                    session_id: 1,
                    peer,
                    node_id: self.relay_primary_id,
                    path: self.first_path(),
                },
            ],
            None => none,
        }) + (match self.relay_secondary_peer {
            Some(peer) => seq![
                RelayParent {
                    session_id: 2,
                    peer,
                    node_id: self.relay_secondary_id,
                    path: self.second_path(),
                },
            ],
            None => none,
        })
    }

    /// What is wrong with the sessions of the relay, where something is.
    pub open spec fn session_refusal(self, node_id: Seq<char>) -> Option<SessionError> {
        if !names_node(node_id) {
            Some(SessionError::LocalIdentity)
        } else if self.relay_topology_generation == 0 {
            Some(SessionError::TopologyGeneration)
        } else if self.relay_subscription_id == 0 {
            Some(SessionError::Subscription)
        } else if self.relay_primary_peer is Some && !names_node(self.relay_primary_id@) {
            Some(SessionError::PrimaryIdentity)
        } else if self.relay_secondary_peer is Some && !names_node(self.relay_secondary_id@) {
            Some(SessionError::SecondaryIdentity)
        } else {
            None
        }
    }

    /// The sessions with the parents of the relay: none where it runs none between fixed
    /// addresses.
    pub fn configured_relay_parents(&self, node_id: &str) -> (r: Result<
        Vec<RelayParent>,
        SessionError,
    >)
        ensures
            match r {
                Ok(parents) => if self.relay_controlled_local {
                    self.session_refusal(node_id@) is None && parents@ == self.parents()
                } else {
                    parents@.len() == 0
                },
                Err(error) => self.relay_controlled_local && self.session_refusal(node_id@)
                    == Some(error),
            },
    {
        let mut parents: Vec<RelayParent> = Vec::new();
        if !self.relay_controlled_local {
            return Ok(parents);
        }
        if !is_node_id(node_id) {
            return Err(SessionError::LocalIdentity);
        }
        if self.relay_topology_generation == 0 {
            return Err(SessionError::TopologyGeneration);
        }
        if self.relay_subscription_id == 0 {
            return Err(SessionError::Subscription);
        }
        if let Some(peer) = self.relay_primary_peer {
            if !is_node_id(self.relay_primary_id.as_str()) {
                return Err(SessionError::PrimaryIdentity);
            }
            let path = if self.relay_primary_promoted {
                ParentPath::PromotedSecondary
            } else {
                ParentPath::Primary
            };
            parents.push(
                RelayParent { session_id: 1, peer, node_id: self.relay_primary_id.clone(), path },
            );
        }
        if let Some(peer) = self.relay_secondary_peer {
            if !is_node_id(self.relay_secondary_id.as_str()) {
                return Err(SessionError::SecondaryIdentity);
            }
            let path = if self.relay_secondary_promoted {
                ParentPath::PromotedSecondary
            } else {
                ParentPath::Secondary
            };
            parents.push(
                RelayParent { session_id: 2, peer, node_id: self.relay_secondary_id.clone(), path },
            );
        }
        proof {
            assert(parents@ =~= self.parents());
        }
        Ok(parents)
    }
}

/// Whether children can be served: each from a socket of its own, which is neither its target nor a
/// socket that media are received on, and no target twice.
pub open spec fn children_apart(
    forwards: Seq<RelayForwardEndpoint>,
    fec_bind: SocketAddress,
    secondary_bind: Option<SocketAddress>,
) -> bool {
    forall|i: int|
        0 <= i < forwards.len() ==> (#[trigger] forwards[i]).bind != forwards[i].target
            && forwards[i].bind != fec_bind && (secondary_bind is Some ==> forwards[i].bind
            != secondary_bind->0) && forall|j: int|
            0 <= j < i ==> (#[trigger] forwards[j]).bind != forwards[i].bind && forwards[j].target
                != forwards[i].target
}

/// Whether a listener can be served: it is for a child that takes repair alone, from a named socket
/// that is not its controller's.
pub open spec fn listener_served(
    listener: RelayFailoverListenerEndpoint,
    forwards: Seq<RelayForwardEndpoint>,
) -> bool {
    &&& listener.bind != listener.peer
    &&& !listener.bind.ip.unspecified()
    &&& exists|f: int|
        0 <= f < forwards.len() && (#[trigger] forwards[f]).target == listener.forward_target
            && forwards[f].role == RelayForwardRole::Repair && forall|g: int|
            0 <= g < f ==> (#[trigger] forwards[g]).target != listener.forward_target
}

/// Whether all listeners can be served, each from a socket of its own and for a child of its own.
pub open spec fn listeners_apart(
    listeners: Seq<RelayFailoverListenerEndpoint>,
    forwards: Seq<RelayForwardEndpoint>,
) -> bool {
    forall|i: int|
        0 <= i < listeners.len() ==> listener_served(#[trigger] listeners[i], forwards) && forall|
            j: int,
        |
            0 <= j < i ==> (#[trigger] listeners[j]).bind != listeners[i].bind
                && listeners[j].forward_target != listeners[i].forward_target
}

proof fn lemma_children(
    forwards: Seq<RelayForwardEndpoint>,
    k: int,
    fec_bind: SocketAddress,
    secondary_bind: Option<SocketAddress>,
)
    requires
        0 <= k <= forwards.len(),
    ensures
        forward_refusal(forwards, k, fec_bind, secondary_bind) is None <==> children_apart(
            forwards.take(k),
            fec_bind,
            secondary_bind,
        ),
    decreases k,
{
    if k > 0 {
        lemma_children(forwards, k - 1, fec_bind, secondary_bind);
        let list = forwards.take(k);
        let front = forwards.take(k - 1);
        let last = forwards[k - 1];
        assert(list[k - 1] == last);
        assert forall|i: int| 0 <= i < k - 1 implies #[trigger] front[i] == list[i] && list[i]
            == forwards[i] by {}
        if children_apart(list, fec_bind, secondary_bind) {
            assert forall|i: int| 0 <= i < front.len() implies (#[trigger] front[i]).bind
                != front[i].target && front[i].bind != fec_bind && (secondary_bind is Some
                ==> front[i].bind != secondary_bind->0) && forall|j: int|
                0 <= j < i ==> (#[trigger] front[j]).bind != front[i].bind && front[j].target
                    != front[i].target by {
                assert(list[i] == front[i]);
                assert forall|j: int| 0 <= j < i implies (#[trigger] front[j]).bind
                    != front[i].bind && front[j].target != front[i].target by {
                    assert(list[j] == front[j]);
                }
            }
            assert forall|j: int| 0 <= j < k - 1 implies (#[trigger] forwards[j]).bind
                != last.bind && forwards[j].target != last.target by {
                assert(list[j] == forwards[j]);
            }
        }
        if forward_refusal(forwards, k, fec_bind, secondary_bind) is None {
            assert forall|i: int| 0 <= i < list.len() implies (#[trigger] list[i]).bind
                != list[i].target && list[i].bind != fec_bind && (secondary_bind is Some
                ==> list[i].bind != secondary_bind->0) && forall|j: int|
                0 <= j < i ==> (#[trigger] list[j]).bind != list[i].bind && list[j].target
                    != list[i].target by {
                if i < k - 1 {
                    assert(front[i] == list[i]);
                    assert forall|j: int| 0 <= j < i implies (#[trigger] list[j]).bind
                        != list[i].bind && list[j].target != list[i].target by {
                        assert(front[j] == list[j]);
                    }
                } else {
                    assert forall|j: int| 0 <= j < i implies (#[trigger] list[j]).bind
                        != list[i].bind && list[j].target != list[i].target by {
                        assert(forwards[j] == list[j]);
                    }
                }
            }
        }
    }
}

proof fn lemma_forward_to(forwards: Seq<RelayForwardEndpoint>, target: SocketAddress)
    ensures
        match forward_to(forwards, target) {
            Some(forward) => exists|f: int|
                0 <= f < forwards.len() && (#[trigger] forwards[f]) == forward && forward.target
                    == target && forall|g: int|
                    0 <= g < f ==> (#[trigger] forwards[g]).target != target,
            None => forall|g: int|
                0 <= g < forwards.len() ==> (#[trigger] forwards[g]).target != target,
        },
    decreases forwards.len(),
{
    if forwards.len() > 0 {
        if forwards[0].target == target {
            assert(forward_to(forwards, target) == Some(forwards[0]));
        } else {
            let rest = forwards.skip(1);
            lemma_forward_to(rest, target);
            assert forall|g: int| 0 < g < forwards.len() implies rest[g - 1]
                == #[trigger] forwards[g] by {}
            match forward_to(rest, target) {
                Some(forward) => {
                    let f = choose|f: int|
                        0 <= f < rest.len() && (#[trigger] rest[f]) == forward && forward.target
                            == target && forall|g: int|
                            0 <= g < f ==> (#[trigger] rest[g]).target != target;
                    assert(forwards[f + 1] == rest[f]);
                    assert forall|g: int| 0 <= g < f + 1 implies (#[trigger] forwards[g]).target
                        != target by {
                        if g > 0 {
                            assert(rest[g - 1] == forwards[g]);
                        }
                    }
                },
                None => {
                    assert forall|g: int| 0 <= g < forwards.len() implies (
                    #[trigger] forwards[g]).target != target by {
                        if g > 0 {
                            assert(rest[g - 1] == forwards[g]);
                        }
                    }
                },
            }
        }
    }
}

proof fn lemma_served(
    listener: RelayFailoverListenerEndpoint,
    forwards: Seq<RelayForwardEndpoint>,
)
    ensures
        listener_served(listener, forwards) <==> listener.bind != listener.peer
            && !listener.bind.ip.unspecified() && forward_to(forwards, listener.forward_target)
            is Some && forward_to(forwards, listener.forward_target)->0.role
            == RelayForwardRole::Repair,
{
    let target = listener.forward_target;
    lemma_forward_to(forwards, target);
    if listener_served(listener, forwards) {
        let f = choose|f: int|
            0 <= f < forwards.len() && (#[trigger] forwards[f]).target == target
                && forwards[f].role == RelayForwardRole::Repair && forall|g: int|
                0 <= g < f ==> (#[trigger] forwards[g]).target != target;
        assert(forwards[f].target == target);
        let h = choose|h: int|
            0 <= h < forwards.len() && (#[trigger] forwards[h]) == forward_to(forwards, target)->0
                && forwards[h].target == target && forall|g: int|
                0 <= g < h ==> (#[trigger] forwards[g]).target != target;
        assert(f == h);
    }
}

proof fn lemma_listeners(
    listeners: Seq<RelayFailoverListenerEndpoint>,
    k: int,
    forwards: Seq<RelayForwardEndpoint>,
)
    requires
        0 <= k <= listeners.len(),
    ensures
        listener_refusal(listeners, k, forwards) is None <==> listeners_apart(
            listeners.take(k),
            forwards,
        ),
    decreases k,
{
    if k > 0 {
        lemma_listeners(listeners, k - 1, forwards);
        let list = listeners.take(k);
        let front = listeners.take(k - 1);
        let last = listeners[k - 1];
        lemma_served(last, forwards);
        assert(list[k - 1] == last);
        assert forall|i: int| 0 <= i < k - 1 implies #[trigger] front[i] == list[i] && list[i]
            == listeners[i] by {}
        if listeners_apart(list, forwards) {
            assert forall|i: int| 0 <= i < front.len() implies listener_served(
                #[trigger] front[i],
                forwards,
            ) && forall|j: int|
                0 <= j < i ==> (#[trigger] front[j]).bind != front[i].bind
                    && front[j].forward_target != front[i].forward_target by {
                assert(list[i] == front[i]);
                assert forall|j: int| 0 <= j < i implies (#[trigger] front[j]).bind
                    != front[i].bind && front[j].forward_target != front[i].forward_target by {
                    assert(list[j] == front[j]);
                }
            }
            assert forall|j: int| 0 <= j < k - 1 implies (#[trigger] listeners[j]).bind
                != last.bind && listeners[j].forward_target != last.forward_target by {
                assert(list[j] == listeners[j]);
            }
        }
        if listener_refusal(listeners, k, forwards) is None {
            assert forall|i: int| 0 <= i < list.len() implies listener_served(
                #[trigger] list[i],
                forwards,
            ) && forall|j: int|
                0 <= j < i ==> (#[trigger] list[j]).bind != list[i].bind && list[j].forward_target
                    != list[i].forward_target by {
                if i < k - 1 {
                    assert(front[i] == list[i]);
                    assert forall|j: int| 0 <= j < i implies (#[trigger] list[j]).bind
                        != list[i].bind && list[j].forward_target != list[i].forward_target by {
                        assert(front[j] == list[j]);
                    }
                } else {
                    assert forall|j: int| 0 <= j < i implies (#[trigger] list[j]).bind
                        != list[i].bind && list[j].forward_target != list[i].forward_target by {
                        assert(listeners[j] == list[j]);
                    }
                }
            }
        }
    }
}

/// Children are accepted exactly where there may be some, where they are no more than allowed, and
/// where they can be served apart.
pub proof fn children_are_accepted_where_they_are_apart(args: Args)
    ensures
        args.children_refusal() is None <==> args.relay_max_downstream_children > 0
            && args.relay_forwards@.len() <= args.relay_max_downstream_children && children_apart(
            args.relay_forwards@,
            args.fec_bind,
            args.relay_secondary_bind,
        ),
{
    let forwards = args.relay_forwards@;
    lemma_children(
        forwards,
        forwards.len() as int,
        args.fec_bind,
        args.relay_secondary_bind,
    );
    assert(forwards.take(forwards.len() as int) =~= forwards);
}

/// Failover is accepted exactly where the node is controlled, a controller has a promoted secondary
/// and a named socket of its own, and the listeners can be served apart.
pub proof fn failover_is_accepted_where_it_can_be_served(args: Args)
    ensures
        args.failover_refusal() is None <==> {
            let listeners = args.relay_failover_listeners@;
            let controller = args.relay_failover_controller;
            &&& listeners.len() > 0 ==> args.relay_controlled_local
            &&& listeners_apart(listeners, args.relay_forwards@)
            &&& controller is Some ==> {
                &&& args.relay_controlled_local
                &&& args.relay_secondary_peer is Some && args.relay_secondary_promoted
                &&& controller->0.bind != controller->0.target
                &&& !controller->0.bind.ip.unspecified()
                &&& forall|j: int|
                    0 <= j < listeners.len() ==> (#[trigger] listeners[j]).bind
                        != controller->0.bind
            }
        },
{
    let listeners = args.relay_failover_listeners@;
    lemma_listeners(listeners, listeners.len() as int, args.relay_forwards@);
    assert(listeners.take(listeners.len() as int) =~= listeners);
}

/// Parents are accepted exactly where a controlled node has one or two of them at two addresses,
/// the second one at a socket of its own, the first at the socket that media are received on, and
/// where nothing is said of a parent that is not there.
pub proof fn parents_are_accepted_where_they_can_be_reached(args: Args)
    ensures
        args.parent_refusal() is None <==> {
            let primary = args.relay_primary_peer;
            let secondary = args.relay_secondary_peer;
            &&& args.relay_controlled_local <==> primary is Some || secondary is Some
            &&& primary is Some && secondary is Some ==> primary->0 != secondary->0
            &&& primary is None ==> args.relay_primary_bind is None && !args.relay_primary_promoted
            &&& secondary is None ==> args.relay_secondary_bind is None
                && !args.relay_secondary_promoted
            &&& args.relay_primary_bind is Some ==> args.relay_primary_bind->0 == args.fec_bind
            &&& secondary is Some ==> args.relay_secondary_bind is Some
                && args.relay_secondary_bind->0 != args.fec_bind
        },
{
}

/// Times are accepted exactly where the silence window is not empty and neither recovery nor warmth
/// is shorter, where a lease lasts three heartbeats or more and a minute at most, and where nothing
/// is numbered by nothing.
pub proof fn times_are_accepted_where_they_fit(args: Args)
    ensures
        args.timing_refusal() is None <==> 0 < args.relay_primary_silence_ms
            <= args.relay_primary_recovery_ms && args.relay_primary_silence_ms
            <= args.relay_secondary_warm_ms && 0 < args.relay_failover_heartbeat_ms && 3
            * args.relay_failover_heartbeat_ms <= args.relay_failover_lease_ms <= 60_000
            && args.relay_topology_generation > 0 && args.relay_subscription_id > 0,
        args.linode_refusal() is None <==> (args.linode_provision ==> args.linode_image_id is Some
            && args.linode_instance_type is Some && args.linode_domain_id is Some),
{
}

/// Arguments are accepted exactly where all their parts are, with a part that lasts and a ratio that
/// is a finite number and not below nothing.
pub proof fn arguments_are_accepted_where_all_parts_are(args: Args)
    ensures
        args.refusal() is None <==> args.part_ms > 0 && (args.mesh_repair_ratio_bits < 0x7f80_0000
            || args.mesh_repair_ratio_bits == 0x8000_0000u32) && args.parent_refusal() is None
            && args.children_refusal() is None && args.failover_refusal() is None
            && args.timing_refusal() is None && args.linode_refusal() is None,
{
}

/// Arguments are settled by raising what is too small: a part and a window of three segments and six
/// parts at least, a slot of 64 kilobytes, room for one slot, and intervals that can be kept. What
/// is large enough stays as it was.
pub proof fn settling_raises_what_is_too_small(args: Args)
    requires
        args.countable(),
    ensures
        ({
            let s = args.settled();
            &&& s.parts_per_segment >= 1 && s.parts_per_segment >= args.parts_per_segment
            &&& args.parts_per_segment >= 1 ==> s.parts_per_segment == args.parts_per_segment
            &&& s.window_parts >= 6 && s.window_parts >= 3 * s.parts_per_segment
            &&& s.window_parts == args.window_parts || s.window_parts == 6 || s.window_parts == 3
                * s.parts_per_segment
            &&& args.window_parts >= 6 && args.window_parts >= 3 * s.parts_per_segment
                ==> s.window_parts == args.window_parts
            &&& s.slot_kb >= 64 && (args.slot_kb >= 64 ==> s.slot_kb == args.slot_kb)
            &&& s.storage_bytes >= s.slot_kb * 1024
            &&& args.storage_bytes >= s.slot_kb * 1024 ==> s.storage_bytes == args.storage_bytes
            &&& s.mesh_symbol_size >= 1 && (args.mesh_symbol_size >= 1 ==> s.mesh_symbol_size
                == args.mesh_symbol_size)
            &&& s.mesh_max_repair_symbols >= s.mesh_repair_symbols && s.mesh_repair_symbols
                == args.mesh_repair_symbols
            &&& args.mesh_max_repair_symbols >= args.mesh_repair_symbols
                ==> s.mesh_max_repair_symbols == args.mesh_max_repair_symbols
            &&& s.telemetry_interval_ms >= 100 && s.replication_plan_interval_ms >= 100
                && s.provision_timeout_ms >= 100
            &&& args.telemetry_interval_ms >= 100 ==> s.telemetry_interval_ms
                == args.telemetry_interval_ms
            &&& args.replication_plan_interval_ms >= 100 ==> s.replication_plan_interval_ms
                == args.replication_plan_interval_ms
            &&& args.provision_timeout_ms >= 100 ==> s.provision_timeout_ms
                == args.provision_timeout_ms
            &&& s.egress_capacity_bps >= 1 && s.mesh_sync_interval_ms >= 1
            &&& args.egress_capacity_bps >= 1 ==> s.egress_capacity_bps == args.egress_capacity_bps
            &&& args.mesh_sync_interval_ms >= 1 ==> s.mesh_sync_interval_ms
                == args.mesh_sync_interval_ms
        }),
{
}

/// A refusal of a socket is about its address, and no other refusal is about one.
pub proof fn refusals_of_sockets_tell_their_address(at: SocketAddress, error: ArgsError)
    ensures
        (ArgsError::ForwardToItself { address: at }).about() == Some(at),
        (ArgsError::ForwardBindTaken { address: at }).about() == Some(at),
        (ArgsError::ForwardBindTwice { address: at }).about() == Some(at),
        (ArgsError::ForwardTargetTwice { address: at }).about() == Some(at),
        (ArgsError::ListenerTargetUnknown { address: at }).about() == Some(at),
        (ArgsError::ListenerTargetNotRepair { address: at }).about() == Some(at),
        (ArgsError::ControlBindTwice { address: at }).about() == Some(at),
        (ArgsError::ControlTargetTwice { address: at }).about() == Some(at),
        error.about() is Some ==> error is ForwardToItself || error is ForwardBindTaken || error
            is ForwardBindTwice || error is ForwardTargetTwice || error is ListenerTargetUnknown
            || error is ListenerTargetNotRepair || error is ControlBindTwice || error
            is ControlTargetTwice,
{
}

/// What a refusal of a socket says ends or goes on behind its address, and changes with nothing
/// else.
pub proof fn refusals_of_sockets_say_their_address(at: SocketAddress, text: Seq<char>)
    ensures
        (ArgsError::ForwardBindTwice { address: at }).text(text)
            == "duplicate RelaySession forward bind "@ + text,
        (ArgsError::ForwardTargetTwice { address: at }).text(text)
            == "duplicate RelaySession forward target "@ + text,
        (ArgsError::ControlBindTwice { address: at }).text(text)
            == "duplicate failover control bind "@ + text,
        (ArgsError::ControlTargetTwice { address: at }).text(text)
            == "duplicate failover control target "@ + text,
        (ArgsError::ListenerTargetUnknown { address: at }).text(text)
            == "failover listener target "@ + text
            + " is not a compiled --relay-forward target"@,
        (ArgsError::ListenerTargetNotRepair { address: at }).text(text)
            == "failover listener target "@ + text
            + " must select a repair-only warm forward"@,
        (ArgsError::ForwardBindTaken { address: at }).text(text) == "RelaySession forward bind "@
            + text + " conflicts with a RelaySession receive socket"@,
{
}

/// What is missing for provisioning is told by the options that would give it, in one order.
pub proof fn missing_options_are_told(image: bool, instance: bool, domain: bool)
    ensures
        ({
            let told = missing_flags(image, instance, domain);
            &&& told.contains("--linode-image-id"@) <==> image
            &&& told.contains("--linode-instance-type"@) <==> instance
            &&& told.contains("--linode-domain-id"@) <==> domain
            &&& told.len() == (if image {
                1int
            } else {
                0
            }) + (if instance {
                1int
            } else {
                0
            }) + (if domain {
                1int
            } else {
                0
            })
        }),
{
    reveal_strlit("--linode-image-id");
    reveal_strlit("--linode-instance-type");
    reveal_strlit("--linode-domain-id");
    let told = missing_flags(image, instance, domain);
    assert("--linode-image-id"@.len() == 17 && "--linode-instance-type"@.len() == 22
        && "--linode-domain-id"@.len() == 18);
    if image {
        assert(told[0] == "--linode-image-id"@);
    }
    if instance {
        assert(told[if image {
            1int
        } else {
            0
        }] == "--linode-instance-type"@);
    }
    if domain {
        assert(told.last() == "--linode-domain-id"@);
    }
}

/// The parents of a relay are those that are given, the first before the second, each by its own
/// address, name and session; a parent that is promoted is told so.
pub proof fn parents_are_those_given(args: Args)
    ensures
        ({
            let parents = args.parents();
            let first = args.relay_primary_peer;
            let second = args.relay_secondary_peer;
            &&& parents.len() == (if first is Some {
                1int
            } else {
                0
            }) + (if second is Some {
                1int
            } else {
                0
            })
            &&& first is Some ==> parents[0].peer == first->0 && parents[0].session_id == 1
                && parents[0].node_id == args.relay_primary_id && (parents[0].path
                is PromotedSecondary <==> args.relay_primary_promoted) && (parents[0].path
                is Primary <==> !args.relay_primary_promoted)
            &&& second is Some ==> parents.last().peer == second->0 && parents.last().session_id
                == 2 && parents.last().node_id == args.relay_secondary_id && (parents.last().path
                is PromotedSecondary <==> args.relay_secondary_promoted) && (parents.last().path
                is Secondary <==> !args.relay_secondary_promoted)
        }),
{
}

/// Sessions are accepted exactly where the node and each of its parents can be named, and where
/// neither the topology nor the subscription is numbered by nothing.
pub proof fn sessions_are_accepted_where_all_are_named(args: Args, node_id: Seq<char>)
    ensures
        args.session_refusal(node_id) is None <==> names_node(node_id)
            && args.relay_topology_generation > 0 && args.relay_subscription_id > 0 && (
        args.relay_primary_peer is Some ==> names_node(args.relay_primary_id@)) && (
        args.relay_secondary_peer is Some ==> names_node(args.relay_secondary_id@)),
        !names_node(node_id) ==> args.session_refusal(node_id) == Some(SessionError::LocalIdentity),
        !names_node(Seq::empty()),
{
}

} // verus!
