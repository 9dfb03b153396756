//! Data model: typed records the extractors produce, the graph value the
//! assembler emits, and the record types of the surrounding dashboard
//! features that share the command-execution channel.

use vstd::prelude::*;

verus! {

// ==================== COMMAND CHANNEL ====================

/// Structured failure of the remote command channel.
#[derive(Clone, Debug)]
pub struct CommandError {
    pub message: String,
    pub code: i32,
}

impl From<String> for CommandError {
    fn from(message: String) -> (r: CommandError) {
        CommandError { message, code: -1 }
    }
}

impl vstd::std_specs::convert::FromSpecImpl<String> for CommandError {
    open spec fn obeys_from_spec() -> bool {
        true
    }

    open spec fn from_spec(message: String) -> Self {
        CommandError { message, code: -1 as i32 }
    }
}

/// The remote command-execution collaborator: runs one shell command on the
/// managed host and hands back its captured standard output, or a structured
/// failure.  The library promises nothing about what an implementation
/// returns; every caller states what holds of its own result whatever the
/// channel answered.
pub trait CommandExecutor {
    fn execute_command(&self, command: &str) -> Result<String, CommandError>;
}

// ==================== SERVER PROFILES ====================

#[derive(Clone, Debug)]
pub struct ServerProfile {
    pub id: String,
    pub name: String,
    pub host: String,
    pub port: u16,
    pub username: String,
    pub auth_method: AuthMethod,
}

#[derive(Clone, Debug)]
pub struct SavedServerProfile {
    pub id: String,
    pub name: String,
    pub host: String,
    pub port: u16,
    pub username: String,
    pub auth_method: AuthMethod,
    pub created_at: u64,
    pub last_connected: Option<u64>,
    pub connect_on_startup: bool,
}

impl SavedServerProfile {
    /// Records a profile, stamped with the caller-supplied creation time
    /// (milliseconds since the epoch; reading the clock is the caller's I/O).
    pub fn from_profile(profile: ServerProfile, created_at: u64) -> (r: SavedServerProfile)
        ensures
            r.id == profile.id,
            r.name == profile.name,
            r.host == profile.host,
            r.port == profile.port,
            r.username == profile.username,
            r.auth_method == profile.auth_method,
            r.created_at == created_at,
            r.last_connected is None,
            !r.connect_on_startup,
    {
        SavedServerProfile {
            id: profile.id,
            name: profile.name,
            host: profile.host,
            port: profile.port,
            username: profile.username,
            auth_method: profile.auth_method,
            created_at,
            last_connected: None,
            connect_on_startup: false,
        }
    }
}

impl From<SavedServerProfile> for ServerProfile {
    fn from(profile: SavedServerProfile) -> (r: ServerProfile) {
        ServerProfile {
            id: profile.id,
            name: profile.name,
            host: profile.host,
            port: profile.port,
            username: profile.username,
            auth_method: profile.auth_method,
        }
    }
}

impl vstd::std_specs::convert::FromSpecImpl<SavedServerProfile> for ServerProfile {
    open spec fn obeys_from_spec() -> bool {
        true
    }

    open spec fn from_spec(profile: SavedServerProfile) -> Self {
        ServerProfile {
            id: profile.id,
            name: profile.name,
            host: profile.host,
            port: profile.port,
            username: profile.username,
            auth_method: profile.auth_method,
        }
    }
}

#[derive(Clone, Debug)]
pub enum AuthMethod {
    Password { password: String },
    PrivateKey { key_path: String, passphrase: Option<String> },
}

impl AuthMethod {
    /// Whether the method authenticates with a key file rather than a password.
    pub fn is_key_based(&self) -> (r: bool)
        ensures
            r == (self is PrivateKey),
    {
        match self {
            AuthMethod::PrivateKey { .. } => true,
            AuthMethod::Password { .. } => false,
        }
    }
}

// ==================== MONITORING RECORDS ====================

#[derive(Clone, Debug)]
pub struct NetworkStats {
    pub bytes_sent: u64,
    pub bytes_recv: u64,
    pub packets_sent: u64,
    pub packets_recv: u64,
    pub interface: String,
}

#[derive(Clone, Debug)]
pub struct NetworkHistoryPoint {
    pub timestamp: u64,
    pub bytes_sent: u64,
    pub bytes_recv: u64,
}

#[derive(Clone, Debug)]
pub struct ServiceInfo {
    pub name: String,
    pub state: String,
    pub sub_state: String,
    pub description: String,
}

#[derive(Clone, Debug)]
pub struct LogEntry {
    pub timestamp: String,
    pub message: String,
}

#[derive(Clone, Debug)]
pub struct SecurityInfo {
    pub open_ports: Vec<u16>,
    pub firewall_active: bool,
    pub ssh_sessions: Vec<String>,
    pub recent_logins: Vec<LoginAttempt>,
}

#[derive(Clone, Debug)]
pub struct LoginAttempt {
    pub timestamp: String,
    pub username: String,
    pub ip: String,
    pub success: bool,
}

#[derive(Clone, Debug)]
pub struct ConnectionResult {
    pub success: bool,
    pub message: String,
}

// ==================== FIREWALL RECORDS ====================

#[derive(Clone, Debug)]
pub struct UfwStatus {
    pub active: bool,
    pub logging: String,
    pub default: String,
    pub rules: Vec<UfwRule>,
}

#[derive(Clone, Debug)]
pub struct UfwRule {
    pub rule: String,
    pub to: String,
    pub action: String,
    pub from: String,
    pub port: Option<String>,
}

#[derive(Clone, Debug)]
pub struct UfwStats {
    pub total_rules: u32,
    pub allow_rules: u32,
    pub deny_rules: u32,
    pub limit_rules: u32,
}

#[derive(Clone, Debug)]
pub struct PortInfo {
    pub port: String,
    pub protocol: String,
    pub action: String,
    pub source: String,
    pub service_name: Option<String>,
}

#[derive(Clone, Debug)]
pub struct UfwOverview {
    pub active: bool,
    pub open_ports: Vec<PortInfo>,
    pub blocked_ports: Vec<PortInfo>,
    pub all_rules: Vec<UfwRule>,
    pub stats: UfwStats,
}

// ==================== CONTAINER RECORDS ====================

/// One published port of a container: `host_ip:host_port` forwarded to
/// `container_port` over `protocol`.
#[derive(Clone, Debug)]
pub struct PortMapping {
    pub host_ip: String,
    pub host_port: String,
    pub container_port: String,
    pub protocol: String,
}

#[verifier::ext_equal]
pub ghost struct PortMappingV {
    pub host_ip: Seq<char>,
    pub host_port: Seq<char>,
    pub container_port: Seq<char>,
    pub protocol: Seq<char>,
}

impl View for PortMapping {
    type V = PortMappingV;

    open spec fn view(&self) -> PortMappingV {
        PortMappingV {
            host_ip: self.host_ip@,
            host_port: self.host_port@,
            container_port: self.container_port@,
            protocol: self.protocol@,
        }
    }
}

impl DeepView for PortMapping {
    type V = PortMappingV;

    open spec fn deep_view(&self) -> PortMappingV {
        self.view()
    }
}

/// A container as the runtime's process listing reports it.  The resource
/// fields are placeholders kept for symmetry with the detail views of other
/// dashboard features; the collection path always leaves them zero or empty.
#[derive(Clone, Debug)]
pub struct DockerContainer {
    pub id: String,
    pub name: String,
    pub image: String,
    pub status: String,
    pub state: String,
    pub memory_usage: u64,
    pub memory_limit: u64,
    pub ports: Vec<PortMapping>,
}

#[verifier::ext_equal]
pub ghost struct DockerContainerV {
    pub id: Seq<char>,
    pub name: Seq<char>,
    pub image: Seq<char>,
    pub status: Seq<char>,
    pub state: Seq<char>,
    pub memory_usage: int,
    pub memory_limit: int,
    pub ports: Seq<PortMappingV>,
}

impl View for DockerContainer {
    type V = DockerContainerV;

    open spec fn view(&self) -> DockerContainerV {
        DockerContainerV {
            id: self.id@,
            name: self.name@,
            image: self.image@,
            status: self.status@,
            state: self.state@,
            memory_usage: self.memory_usage as int,
            memory_limit: self.memory_limit as int,
            ports: self.ports.deep_view(),
        }
    }
}

impl DeepView for DockerContainer {
    type V = DockerContainerV;

    open spec fn deep_view(&self) -> DockerContainerV {
        self.view()
    }
}

#[derive(Clone, Debug)]
pub struct ContainerDetails {
    pub id: String,
    pub name: String,
    pub image: String,
    pub state: String,
    pub status: String,
    pub created: String,
    pub started_at: Option<String>,
    pub env_vars: Vec<String>,
    pub ports: Vec<PortMapping>,
    pub networks: Vec<String>,
    pub volumes: Vec<VolumeMount>,
    pub labels: Vec<Label>,
    pub command: String,
    pub working_dir: String,
    pub user: String,
    pub restart_policy: String,
    pub memory_limit: String,
    pub cpu_limit: String,
}

#[derive(Clone, Debug)]
pub struct VolumeMount {
    pub source: String,
    pub destination: String,
    pub mode: String,
}

#[derive(Clone, Debug)]
pub struct Label {
    pub key: String,
    pub value: String,
}

#[derive(Clone, Debug)]
pub struct DockerVolume {
    pub name: String,
    pub driver: String,
    pub mountpoint: String,
    pub scope: String,
    pub labels: Vec<Label>,
}

/// A container network with the member names and subnet recovered from the
/// runtime's inspect queries (both best-effort).
#[derive(Clone, Debug)]
pub struct DockerNetwork {
    pub id: String,
    pub name: String,
    pub driver: String,
    pub scope: String,
    pub subnet: Option<String>,
    pub gateway: Option<String>,
    pub containers: Vec<String>,
}

#[verifier::ext_equal]
pub ghost struct DockerNetworkV {
    pub id: Seq<char>,
    pub name: Seq<char>,
    pub driver: Seq<char>,
    pub scope: Seq<char>,
    pub subnet: Option<Seq<char>>,
    pub gateway: Option<Seq<char>>,
    pub containers: Seq<Seq<char>>,
}

impl View for DockerNetwork {
    type V = DockerNetworkV;

    open spec fn view(&self) -> DockerNetworkV {
        DockerNetworkV {
            id: self.id@,
            name: self.name@,
            driver: self.driver@,
            scope: self.scope@,
            subnet: self.subnet.deep_view(),
            gateway: self.gateway.deep_view(),
            containers: self.containers.deep_view(),
        }
    }
}

impl DeepView for DockerNetwork {
    type V = DockerNetworkV;

    open spec fn deep_view(&self) -> DockerNetworkV {
        self.view()
    }
}

#[derive(Clone, Debug)]
pub struct DockerImage {
    pub id: String,
    pub repository: String,
    pub tag: String,
    pub size: u64,
    pub created: String,
    pub architecture: String,
}

#[derive(Clone, Debug)]
pub struct ComposeProject {
    pub name: String,
    pub path: String,
    pub services: Vec<String>,
    pub content: String,
}

// ==================== USER MANAGEMENT RECORDS ====================

#[derive(Clone, Debug)]
pub struct SystemUser {
    pub username: String,
    pub uid: u32,
    pub gid: u32,
    pub groups: Vec<String>,
    pub home: String,
    pub shell: String,
    pub gecos: String,
    pub locked: bool,
    pub has_password: bool,
    pub last_login: Option<String>,
}

#[derive(Clone, Debug)]
pub struct SystemGroup {
    pub name: String,
    pub gid: u32,
    pub members: Vec<String>,
}

#[derive(Clone, Debug)]
pub struct SSHKey {
    pub key_type: String,
    pub key_data: String,
    pub comment: String,
    pub fingerprint: String,
}

#[derive(Clone, Debug)]
pub struct UserDetail {
    pub username: String,
    pub uid: u32,
    pub gid: u32,
    pub groups: Vec<String>,
    pub home: String,
    pub shell: String,
    pub gecos: String,
    pub locked: bool,
    pub has_password: bool,
    pub last_login: Option<String>,
    pub password_expiry: Option<String>,
    pub ssh_keys: Vec<SSHKey>,
}

#[derive(Clone, Debug)]
pub struct CreateUserRequest {
    pub username: String,
    pub password: Option<String>,
    pub home: Option<String>,
    pub shell: Option<String>,
    pub groups: Vec<String>,
    pub create_home: bool,
}

#[derive(Clone, Debug)]
pub struct ModifyUserRequest {
    pub username: String,
    pub new_username: Option<String>,
    pub home: Option<String>,
    pub shell: Option<String>,
    pub groups: Option<Vec<String>>,
}

// ==================== REVERSE-PROXY RECORDS ====================

#[derive(Clone, Debug)]
pub struct NginxStatus {
    pub running: bool,
    pub version: String,
    pub worker_processes: String,
    pub config_test: String,
}

/// A reverse-proxy virtual host as extracted from its configuration text.
#[derive(Clone, Debug)]
pub struct NginxVhost {
    pub name: String,
    pub enabled: bool,
    pub server_name: String,
    pub listen_port: String,
    pub ssl_enabled: bool,
    pub root_path: String,
}

#[verifier::ext_equal]
pub ghost struct NginxVhostV {
    pub name: Seq<char>,
    pub enabled: bool,
    pub server_name: Seq<char>,
    pub listen_port: Seq<char>,
    pub ssl_enabled: bool,
    pub root_path: Seq<char>,
}

impl View for NginxVhost {
    type V = NginxVhostV;

    open spec fn view(&self) -> NginxVhostV {
        NginxVhostV {
            name: self.name@,
            enabled: self.enabled,
            server_name: self.server_name@,
            listen_port: self.listen_port@,
            ssl_enabled: self.ssl_enabled,
            root_path: self.root_path@,
        }
    }
}

impl DeepView for NginxVhost {
    type V = NginxVhostV;

    open spec fn deep_view(&self) -> NginxVhostV {
        self.view()
    }
}

// ==================== CRON RECORDS ====================

#[derive(Clone, Debug)]
pub struct CronJob {
    pub id: usize,
    pub schedule: String,
    pub command: String,
    pub user: String,
    pub enabled: bool,
    pub source: String,
}

#[derive(Clone, Debug)]
pub struct CronFolder {
    pub name: String,
    pub path: String,
    pub scripts: Vec<String>,
}

// ==================== INFRASTRUCTURE GRAPH ====================

/// Marker state handed to the dashboard layer that owns graph collection.
pub struct InfraGraphState;

impl Default for InfraGraphState {
    fn default() -> (r: Self)
        ensures
            r == InfraGraphState,
    {
        InfraGraphState
    }
}

/// A scalar metadata value attached to a graph node.
#[derive(Clone, Debug)]
pub enum MetaValue {
    Text(String),
    Flag(bool),
    Count(usize),
    Missing,
}

#[verifier::ext_equal]
pub ghost enum MetaValueV {
    Text(Seq<char>),
    Flag(bool),
    Count(int),
    Missing,
}

impl View for MetaValue {
    type V = MetaValueV;

    open spec fn view(&self) -> MetaValueV {
        match self {
            MetaValue::Text(s) => MetaValueV::Text(s@),
            MetaValue::Flag(b) => MetaValueV::Flag(*b),
            MetaValue::Count(n) => MetaValueV::Count(*n as int),
            MetaValue::Missing => MetaValueV::Missing,
        }
    }
}

impl DeepView for MetaValue {
    type V = MetaValueV;

    open spec fn deep_view(&self) -> MetaValueV {
        self.view()
    }
}

/// One `key: value` entry of a node's metadata mapping.
#[derive(Clone, Debug)]
pub struct MetaEntry {
    pub key: String,
    pub value: MetaValue,
}

#[verifier::ext_equal]
pub ghost struct MetaEntryV {
    pub key: Seq<char>,
    pub value: MetaValueV,
}

impl View for MetaEntry {
    type V = MetaEntryV;

    open spec fn view(&self) -> MetaEntryV {
        MetaEntryV { key: self.key@, value: self.value@ }
    }
}

impl DeepView for MetaEntry {
    type V = MetaEntryV;

    open spec fn deep_view(&self) -> MetaEntryV {
        self.view()
    }
}

/// The closed set of node kinds the graph models.
#[derive(Clone, Copy, Debug, PartialEq, Eq, Structural)]
pub enum InfraGraphNodeType {
    Internet,
    Nginx,
    Vhost,
    HostPort,
    Container,
    DockerNetwork,
    HostNetwork,
}

/// The closed set of per-node health states.
#[derive(Clone, Copy, Debug, PartialEq, Eq, Structural)]
pub enum NodeStatus {
    Running,
    Stopped,
    Healthy,
    Unhealthy,
    Unknown,
}

/// A graph node with its stable identifier and display attributes.
#[derive(Clone, Debug)]
pub struct InfraGraphNode {
    pub id: String,
    pub label: String,
    pub node_type: InfraGraphNodeType,
    pub status: NodeStatus,
    pub metadata: Vec<MetaEntry>,
}

#[verifier::ext_equal]
pub ghost struct InfraGraphNodeV {
    pub id: Seq<char>,
    pub label: Seq<char>,
    pub node_type: InfraGraphNodeType,
    pub status: NodeStatus,
    pub metadata: Seq<MetaEntryV>,
}

impl View for InfraGraphNode {
    type V = InfraGraphNodeV;

    open spec fn view(&self) -> InfraGraphNodeV {
        InfraGraphNodeV {
            id: self.id@,
            label: self.label@,
            node_type: self.node_type,
            status: self.status,
            metadata: self.metadata.deep_view(),
        }
    }
}

impl DeepView for InfraGraphNode {
    type V = InfraGraphNodeV;

    open spec fn deep_view(&self) -> InfraGraphNodeV {
        self.view()
    }
}

/// A directed edge between two node identifiers.
#[derive(Clone, Debug)]
pub struct InfraGraphEdge {
    pub source: String,
    pub target: String,
    pub edge_type: String,
    pub label: Option<String>,
    pub metadata: Option<Vec<MetaEntry>>,
}

#[verifier::ext_equal]
pub ghost struct InfraGraphEdgeV {
    pub source: Seq<char>,
    pub target: Seq<char>,
    pub edge_type: Seq<char>,
    pub label: Option<Seq<char>>,
    pub metadata: Option<Seq<MetaEntryV>>,
}

impl View for InfraGraphEdge {
    type V = InfraGraphEdgeV;

    open spec fn view(&self) -> InfraGraphEdgeV {
        InfraGraphEdgeV {
            source: self.source@,
            target: self.target@,
            edge_type: self.edge_type@,
            label: self.label.deep_view(),
            metadata: self.metadata.deep_view(),
        }
    }
}

impl DeepView for InfraGraphEdge {
    type V = InfraGraphEdgeV;

    open spec fn deep_view(&self) -> InfraGraphEdgeV {
        self.view()
    }
}

/// Aggregate counts recomputed from the record sets of one collection pass.
#[derive(Clone, Debug)]
pub struct InfraSummary {
    pub total_containers: usize,
    pub running_containers: usize,
    pub total_vhosts: usize,
    pub enabled_vhosts: usize,
    pub nginx_status: String,
    pub total_volumes: usize,
    pub total_networks: usize,
}

#[verifier::ext_equal]
pub ghost struct InfraSummaryV {
    pub total_containers: int,
    pub running_containers: int,
    pub total_vhosts: int,
    pub enabled_vhosts: int,
    pub nginx_status: Seq<char>,
    pub total_volumes: int,
    pub total_networks: int,
}

impl View for InfraSummary {
    type V = InfraSummaryV;

    open spec fn view(&self) -> InfraSummaryV {
        InfraSummaryV {
            total_containers: self.total_containers as int,
            running_containers: self.running_containers as int,
            total_vhosts: self.total_vhosts as int,
            enabled_vhosts: self.enabled_vhosts as int,
            nginx_status: self.nginx_status@,
            total_volumes: self.total_volumes as int,
            total_networks: self.total_networks as int,
        }
    }
}

/// The node/edge graph of one collection pass, with its summary.
#[derive(Clone, Debug)]
pub struct InfrastructureGraph {
    pub nodes: Vec<InfraGraphNode>,
    pub edges: Vec<InfraGraphEdge>,
    pub summary: InfraSummary,
}

#[verifier::ext_equal]
pub ghost struct InfrastructureGraphV {
    pub nodes: Seq<InfraGraphNodeV>,
    pub edges: Seq<InfraGraphEdgeV>,
    pub summary: InfraSummaryV,
}

impl View for InfrastructureGraph {
    type V = InfrastructureGraphV;

    open spec fn view(&self) -> InfrastructureGraphV {
        InfrastructureGraphV {
            nodes: self.nodes.deep_view(),
            edges: self.edges.deep_view(),
            summary: self.summary@,
        }
    }
}

} // verus!
