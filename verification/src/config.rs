//! Configuration model: SSH hosts, channels referencing them by name,
//! reconnection settings, and the resolution of channel references
//! into flat runtime descriptors.

use vstd::prelude::*;
use vstd::string::*;
use crate::error::AppError;
use crate::ssh_config::{SshConfigEntry, EntryView, entry_views};
use crate::text::{dec_val, first_where, is_dec_string, num_body, parse_u16, str_eq};

verus! {

/// Authentication configuration.
#[derive(Debug)]
pub enum AuthConfig {
    /// Password authentication.
    Password { password: String },
    /// Private key authentication: a key file path and an optional
    /// passphrase.
    Key { key_path: String, passphrase: Option<String> },
}

/// Mathematical model of an `AuthConfig`.
pub enum AuthView {
    Password { password: Seq<char> },
    Key { key_path: Seq<char>, passphrase: Option<Seq<char>> },
}

impl View for AuthConfig {
    type V = AuthView;

    open spec fn view(&self) -> AuthView {
        match self {
            AuthConfig::Password { password } => AuthView::Password { password: password@ },
            AuthConfig::Key { key_path, passphrase } => AuthView::Key {
                key_path: key_path@,
                passphrase: match passphrase {
                    Some(p) => Some(p@),
                    None => None,
                },
            },
        }
    }
}

impl Clone for AuthConfig {
    fn clone(&self) -> (r: Self)
        ensures
            r@ == self@,
    {
        match self {
            AuthConfig::Password { password } => AuthConfig::Password {
                password: password.clone(),
            },
            AuthConfig::Key { key_path, passphrase } => AuthConfig::Key {
                key_path: key_path.clone(),
                passphrase: match passphrase {
                    Some(p) => Some(p.clone()),
                    None => None,
                },
            },
        }
    }
}

/// An SSH host definition: the endpoint channels refer to by name.
#[derive(Debug)]
pub struct HostConfig {
    /// Host name/identifier, referenced by channels.
    pub name: String,
    /// Remote host address.
    pub host: String,
    /// SSH port.
    pub port: u16,
    /// SSH username.
    pub username: String,
    /// Authentication method.
    pub auth: AuthConfig,
}

/// Mathematical model of a `HostConfig`.
pub struct HostView {
    pub name: Seq<char>,
    pub host: Seq<char>,
    pub port: u16,
    pub username: Seq<char>,
    pub auth: AuthView,
}

impl View for HostConfig {
    type V = HostView;

    open spec fn view(&self) -> HostView {
        HostView {
            name: self.name@,
            host: self.host@,
            port: self.port,
            username: self.username@,
            auth: self.auth@,
        }
    }
}

impl Clone for HostConfig {
    fn clone(&self) -> (r: Self)
        ensures
            r@ == self@,
    {
        HostConfig {
            name: self.name.clone(),
            host: self.host.clone(),
            port: self.port,
            username: self.username.clone(),
            auth: self.auth.clone(),
        }
    }
}

/// The SSH port used when a host entry does not name one.
pub fn default_ssh_port() -> (p: u16)
    ensures
        p == 22,
{
    22
}

/// The listen address used when a channel does not name one.
pub fn default_listen_host() -> (r: String)
    ensures
        r@ == "127.0.0.1"@,
{
    String::from_str("127.0.0.1")
}

/// The destination address used when a channel does not name one.
pub fn default_destination_host() -> (r: String)
    ensures
        r@ == "127.0.0.1"@,
{
    String::from_str("127.0.0.1")
}

/// Default retry ceiling: zero, meaning unlimited.
pub fn default_max_retries() -> (r: u32)
    ensures
        r == 0,
{
    0
}

/// Default initial backoff delay in seconds.
pub fn default_initial_delay() -> (r: u64)
    ensures
        r == 1,
{
    1
}

/// Default maximum backoff delay in seconds.
pub fn default_max_delay() -> (r: u64)
    ensures
        r == 30,
{
    30
}

/// Exponential backoff is the default mode.
pub fn default_use_exponential() -> (r: bool)
    ensures
        r,
{
    true
}

/// Reconnection settings for every channel.
#[derive(Debug, Clone, Copy, PartialEq, Eq, Structural)]
pub struct ReconnectionConfig {
    /// Maximum retry attempts within one supervision cycle
    /// (0 = unlimited).
    pub max_retries: u32,
    /// Initial delay in seconds before a retry.
    pub initial_delay_secs: u64,
    /// Maximum delay in seconds between retries.
    pub max_delay_secs: u64,
    /// Exponential backoff when true, fixed interval when false.
    pub use_exponential_backoff: bool,
}

impl Default for ReconnectionConfig {
    fn default() -> (r: Self)
        ensures
            r.max_retries == 0,
            r.initial_delay_secs == 1,
            r.max_delay_secs == 30,
            r.use_exponential_backoff,
    {
        ReconnectionConfig {
            max_retries: default_max_retries(),
            initial_delay_secs: default_initial_delay(),
            max_delay_secs: default_max_delay(),
            use_exponential_backoff: default_use_exponential(),
        }
    }
}

/// A pair of ports written `local:dest` in the configuration.
#[derive(Debug)]
pub struct PortForward {
    /// Local port to bind (required for both forwarding kinds).
    pub local_port: Option<u16>,
    /// Destination port (required).
    pub dest_port: u16,
}

/// Mathematical model of a `PortForward`.
pub struct PortForwardView {
    pub local_port: Option<u16>,
    pub dest_port: u16,
}

impl View for PortForward {
    type V = PortForwardView;

    open spec fn view(&self) -> PortForwardView {
        PortForwardView { local_port: self.local_port, dest_port: self.dest_port }
    }
}

impl Clone for PortForward {
    fn clone(&self) -> (r: Self)
        ensures
            r@ == self@,
    {
        PortForward { local_port: self.local_port, dest_port: self.dest_port }
    }
}

/// Position of the single separating colon in a port pair string.
pub open spec fn colon_pos(s: Seq<char>) -> int {
    first_where(s, |c: char| c == ':')
}

/// A port pair string is well formed when it has exactly one colon,
/// a parseable port number on each side, and each port fits in `u16`.
pub open spec fn port_pair_valid(s: Seq<char>) -> bool {
    let i = colon_pos(s);
    &&& i < s.len()
    &&& forall|k: int| i < k < s.len() ==> s[k] != ':'
    &&& i > 0
    &&& i + 1 < s.len()
    &&& is_dec_string(s.take(i)) && dec_val(num_body(s.take(i))) <= u16::MAX
    &&& is_dec_string(s.skip(i + 1)) && dec_val(num_body(s.skip(i + 1))) <= u16::MAX
}

/// The local (left) port of a well-formed port pair string.
pub open spec fn port_pair_local(s: Seq<char>) -> nat {
    dec_val(num_body(s.take(colon_pos(s))))
}

/// The destination (right) port of a well-formed port pair string.
pub open spec fn port_pair_dest(s: Seq<char>) -> nat {
    dec_val(num_body(s.skip(colon_pos(s) + 1)))
}

/// The message a malformed port pair string is rejected with: the
/// shape faults name the expected format, the value faults name the
/// offending side.
pub open spec fn port_pair_error_message(s: Seq<char>) -> Seq<char> {
    let i = colon_pos(s);
    if i == s.len() || (exists|k: int| i < k < s.len() && s[k] == ':') {
        "Invalid port format '"@ + s + "'. Expected format: "@
            + "'local:dest' (e.g., '80:3923')"@
    } else if i == 0 {
        "Invalid port format '"@ + s + "'. Local port cannot be empty. Expected format: "@
            + "'local:dest' (e.g., '80:3923')"@
    } else if i + 1 == s.len() {
        "Invalid port format '"@ + s
            + "'. Destination port cannot be empty. Expected format: "@
            + "'local:dest' (e.g., '80:3923')"@
    } else if !(is_dec_string(s.take(i)) && dec_val(num_body(s.take(i))) <= u16::MAX) {
        "Invalid local port '"@ + s.take(i) + "'"@
    } else {
        "Invalid destination port '"@ + s.skip(i + 1) + "'"@
    }
}

impl PortForward {
    /// Parses a `local:dest` port pair. Both ports are required:
    /// exactly those strings with a single colon and a valid port
    /// number on each side are accepted; everything else is rejected
    /// as a configuration error whose message names the fault.
    pub fn parse(s: &str) -> (r: Result<Self, AppError>)
        ensures
            r is Ok <==> port_pair_valid(s@),
            r is Ok ==> r->Ok_0@.local_port == Some((port_pair_local(s@) as u16)),
            r is Ok ==> r->Ok_0@.dest_port == port_pair_dest(s@),
            r is Err ==> r->Err_0 is Config,
            r is Err ==> crate::error::error_message(r->Err_0) == port_pair_error_message(s@),
    {
        let n = s.unicode_len();
        let mut i: usize = 0;
        while i < n && s.get_char(i) != ':'
            invariant
                0 <= i <= n,
                n == s@.len(),
                forall|k: int| 0 <= k < i ==> s@[k] != ':',
            decreases n - i,
        {
            i = i + 1;
        }
        proof {
            crate::text::lemma_first_where_at(
                s@,
                |c: char| c == ':',
                i as int,
            );
        }
        if i == n {
            return Err(AppError::Config(port_shape_error(s, "'. Expected format: ")));
        }
        let mut j: usize = i + 1;
        while j < n && s.get_char(j) != ':'
            invariant
                i < j <= n,
                n == s@.len(),
                forall|k: int| i < k < j ==> s@[k] != ':',
            decreases n - j,
        {
            j = j + 1;
        }
        if j < n {
            proof {
                assert(s@[j as int] == ':');
            }
            return Err(AppError::Config(port_shape_error(s, "'. Expected format: ")));
        }
        if i == 0 {
            return Err(
                AppError::Config(
                    port_shape_error(s, "'. Local port cannot be empty. Expected format: "),
                ),
            );
        }
        if i + 1 == n {
            return Err(
                AppError::Config(
                    port_shape_error(s, "'. Destination port cannot be empty. Expected format: "),
                ),
            );
        }
        let left = s.substring_char(0, i);
        let right = s.substring_char(i + 1, n);
        proof {
            assert(left@ =~= s@.take(i as int));
            assert(right@ =~= s@.skip(i + 1));
        }
        let local = match parse_u16(left) {
            Some(p) => p,
            None => {
                let mut m = String::from_str("Invalid local port '");
                m.append(left);
                m.append("'");
                return Err(AppError::Config(m));
            },
        };
        let dest = match parse_u16(right) {
            Some(p) => p,
            None => {
                let mut m = String::from_str("Invalid destination port '");
                m.append(right);
                m.append("'");
                return Err(AppError::Config(m));
            },
        };
        Ok(PortForward { local_port: Some(local), dest_port: dest })
    }
}

/// A channel definition referencing a host by name.
#[derive(Debug)]
pub struct ConnectionConfig {
    /// Channel name/identifier.
    pub name: String,
    /// Host reference; must match the name of a configured host.
    pub hostname: String,
    /// Channel kind tag: `direct-tcpip` (local forward),
    /// `forwarded-tcpip` (remote forward) or `session`. Anything
    /// else, or nothing, is treated as `direct-tcpip`.
    pub channel_type: Option<String>,
    /// The port pair of the channel.
    pub ports: PortForward,
    /// Destination host for local forwards; local host to connect to
    /// for remote forwards.
    pub dest_host: String,
    /// Local listen address for local forwards.
    pub listen_host: String,
}

/// Mathematical model of a `ConnectionConfig`.
#[verifier::ext_equal]
pub struct ConnectionView {
    pub name: Seq<char>,
    pub hostname: Seq<char>,
    pub channel_type: Option<Seq<char>>,
    pub ports: PortForwardView,
    pub dest_host: Seq<char>,
    pub listen_host: Seq<char>,
}

impl View for ConnectionConfig {
    type V = ConnectionView;

    open spec fn view(&self) -> ConnectionView {
        ConnectionView {
            name: self.name@,
            hostname: self.hostname@,
            channel_type: match &self.channel_type {
                Some(t) => Some(t@),
                None => None,
            },
            ports: self.ports@,
            dest_host: self.dest_host@,
            listen_host: self.listen_host@,
        }
    }
}

impl Clone for ConnectionConfig {
    fn clone(&self) -> (r: Self)
        ensures
            r@ == self@,
    {
        ConnectionConfig {
            name: self.name.clone(),
            hostname: self.hostname.clone(),
            channel_type: match &self.channel_type {
                Some(t) => Some(t.clone()),
                None => None,
            },
            ports: self.ports.clone(),
            dest_host: self.dest_host.clone(),
            listen_host: self.listen_host.clone(),
        }
    }
}

/// Parameters of each channel kind, decided once at resolution time.
#[derive(Debug)]
pub enum ChannelTypeParams {
    /// Local port forwarding: listen locally, forward to a remote
    /// destination.
    DirectTcpIp { listen_host: String, local_port: u16, dest_host: String, dest_port: u16 },
    /// Remote port forwarding: the server binds a port and pushes
    /// connections back, bridged to a local destination.
    ForwardedTcpIp { remote_bind_port: u16, local_connect_host: String, local_connect_port: u16 },
    /// Session channel, optionally running a command.
    Session { command: Option<String> },
}

/// Mathematical model of `ChannelTypeParams`.
#[verifier::ext_equal]
pub enum ParamsView {
    DirectTcpIp { listen_host: Seq<char>, local_port: u16, dest_host: Seq<char>, dest_port: u16 },
    ForwardedTcpIp {
        remote_bind_port: u16,
        local_connect_host: Seq<char>,
        local_connect_port: u16,
    },
    Session { command: Option<Seq<char>> },
}

impl View for ChannelTypeParams {
    type V = ParamsView;

    open spec fn view(&self) -> ParamsView {
        match self {
            ChannelTypeParams::DirectTcpIp { listen_host, local_port, dest_host, dest_port } => {
                ParamsView::DirectTcpIp {
                    listen_host: listen_host@,
                    local_port: *local_port,
                    dest_host: dest_host@,
                    dest_port: *dest_port,
                }
            },
            ChannelTypeParams::ForwardedTcpIp {
                remote_bind_port,
                local_connect_host,
                local_connect_port,
            } => {
                ParamsView::ForwardedTcpIp {
                    remote_bind_port: *remote_bind_port,
                    local_connect_host: local_connect_host@,
                    local_connect_port: *local_connect_port,
                }
            },
            ChannelTypeParams::Session { command } => {
                ParamsView::Session {
                    command: match command {
                        Some(c) => Some(c@),
                        None => None,
                    },
                }
            },
        }
    }
}

impl Clone for ChannelTypeParams {
    fn clone(&self) -> (r: Self)
        ensures
            r@ == self@,
    {
        match self {
            ChannelTypeParams::DirectTcpIp { listen_host, local_port, dest_host, dest_port } => {
                ChannelTypeParams::DirectTcpIp {
                    listen_host: listen_host.clone(),
                    local_port: *local_port,
                    dest_host: dest_host.clone(),
                    dest_port: *dest_port,
                }
            },
            ChannelTypeParams::ForwardedTcpIp {
                remote_bind_port,
                local_connect_host,
                local_connect_port,
            } => {
                ChannelTypeParams::ForwardedTcpIp {
                    remote_bind_port: *remote_bind_port,
                    local_connect_host: local_connect_host.clone(),
                    local_connect_port: *local_connect_port,
                }
            },
            ChannelTypeParams::Session { command } => {
                ChannelTypeParams::Session {
                    command: match command {
                        Some(c) => Some(c.clone()),
                        None => None,
                    },
                }
            },
        }
    }
}

/// A flattened runtime channel descriptor: the referenced host's
/// endpoint and credentials merged with the channel's own parameters.
#[derive(Debug)]
pub struct ChannelConfig {
    /// Channel name/identifier.
    pub name: String,
    /// Remote host address.
    pub host: String,
    /// SSH port.
    pub port: u16,
    /// SSH username.
    pub username: String,
    /// Authentication method.
    pub auth: AuthConfig,
    /// Channel kind tag, for logging and status display.
    pub channel_type: String,
    /// Kind-specific parameters.
    pub params: ChannelTypeParams,
}

/// Mathematical model of a `ChannelConfig`.
#[verifier::ext_equal]
pub struct ChannelView {
    pub name: Seq<char>,
    pub host: Seq<char>,
    pub port: u16,
    pub username: Seq<char>,
    pub auth: AuthView,
    pub channel_type: Seq<char>,
    pub params: ParamsView,
}

impl View for ChannelConfig {
    type V = ChannelView;

    open spec fn view(&self) -> ChannelView {
        ChannelView {
            name: self.name@,
            host: self.host@,
            port: self.port,
            username: self.username@,
            auth: self.auth@,
            channel_type: self.channel_type@,
            params: self.params@,
        }
    }
}

impl Clone for ChannelConfig {
    fn clone(&self) -> (r: Self)
        ensures
            r@ == self@,
    {
        ChannelConfig {
            name: self.name.clone(),
            host: self.host.clone(),
            port: self.port,
            username: self.username.clone(),
            auth: self.auth.clone(),
            channel_type: self.channel_type.clone(),
            params: self.params.clone(),
        }
    }
}

/// The models of a sequence of hosts.
pub open spec fn host_views(v: Seq<HostConfig>) -> Seq<HostView> {
    v.map_values(|h: HostConfig| h@)
}

/// The models of a sequence of channel definitions.
pub open spec fn connection_views(v: Seq<ConnectionConfig>) -> Seq<ConnectionView> {
    v.map_values(|c: ConnectionConfig| c@)
}

/// Index of the first host with the given name, or the length when
/// none matches.
pub open spec fn host_idx(hosts: Seq<HostView>, name: Seq<char>) -> int
    decreases hosts.len(),
{
    if hosts.len() == 0 {
        0
    } else if hosts[0].name == name {
        0
    } else {
        1 + host_idx(hosts.drop_first(), name)
    }
}

/// True when some host carries the given name.
pub open spec fn has_host(hosts: Seq<HostView>, name: Seq<char>) -> bool {
    host_idx(hosts, name) < hosts.len()
}

proof fn lemma_host_idx_at(hosts: Seq<HostView>, name: Seq<char>, i: int)
    requires
        0 <= i <= hosts.len(),
        forall|k: int| 0 <= k < i ==> (#[trigger] hosts[k]).name != name,
        i == hosts.len() || hosts[i].name == name,
    ensures
        host_idx(hosts, name) == i,
    decreases i,
{
    if i > 0 {
        lemma_host_idx_at(hosts.drop_first(), name, i - 1);
    }
}

/// First host of the configuration carrying the given name.
fn find_host<'a>(hosts: &'a Vec<HostConfig>, name: &str) -> (r: Option<&'a HostConfig>)
    ensures
        match r {
            Some(h) => has_host(host_views(hosts@), name@) && h@ == host_views(hosts@)[host_idx(
                host_views(hosts@),
                name@,
            )],
            None => !has_host(host_views(hosts@), name@),
        },
{
    let ghost hv = host_views(hosts@);
    let n = hosts.len();
    let mut i: usize = 0;
    while i < n
        invariant
            0 <= i <= n,
            n == hosts@.len(),
            hv == host_views(hosts@),
            forall|k: int| 0 <= k < i ==> (#[trigger] hv[k]).name != name@,
        decreases n - i,
    {
        if str_eq(hosts[i].name.as_str(), name) {
            proof {
                lemma_host_idx_at(hv, name@, i as int);
            }
            return Some(&hosts[i]);
        }
        i = i + 1;
    }
    proof {
        lemma_host_idx_at(hv, name@, n as int);
    }
    None
}

/// The kind tag a channel definition names, or `direct-tcpip` when it
/// names none.
pub open spec fn eff_channel_type(c: ConnectionView) -> Seq<char> {
    match c.channel_type {
        Some(t) => t,
        None => "direct-tcpip"@,
    }
}

/// True when the channel asks for remote port forwarding.
pub open spec fn is_forwarded_kind(c: ConnectionView) -> bool {
    eff_channel_type(c) == "forwarded-tcpip"@
}

/// True when the channel asks for a session.
pub open spec fn is_session_kind(c: ConnectionView) -> bool {
    eff_channel_type(c) == "session"@
}

/// A channel definition resolves when its host reference names a
/// configured host and, for the two forwarding kinds, its local port
/// is present. Exactly the definitions failing this are rejected at
/// resolution time, before any I/O.
pub open spec fn resolvable(hosts: Seq<HostView>, c: ConnectionView) -> bool {
    &&& has_host(hosts, c.hostname)
    &&& (is_session_kind(c) || c.ports.local_port is Some)
}

/// The runtime descriptor a resolvable channel definition flattens
/// to: host endpoint and credentials merged with kind parameters.
pub open spec fn resolution(hosts: Seq<HostView>, c: ConnectionView) -> ChannelView {
    let h = hosts[host_idx(hosts, c.hostname)];
    ChannelView {
        name: c.name,
        host: h.host,
        port: h.port,
        username: h.username,
        auth: h.auth,
        channel_type: eff_channel_type(c),
        params: if is_forwarded_kind(c) {
            ParamsView::ForwardedTcpIp {
                remote_bind_port: c.ports.dest_port,
                local_connect_host: c.dest_host,
                local_connect_port: c.ports.local_port->0,
            }
        } else if is_session_kind(c) {
            ParamsView::Session { command: None }
        } else {
            ParamsView::DirectTcpIp {
                listen_host: c.listen_host,
                local_port: c.ports.local_port->0,
                dest_host: c.dest_host,
                dest_port: c.ports.dest_port,
            }
        },
    }
}

/// The message a channel definition that does not resolve is
/// rejected with: an unknown host reference names the channel and
/// the reference; a missing local port names the channel and its
/// kind's expected port format.
pub open spec fn resolve_error_message(hosts: Seq<HostView>, c: ConnectionView) -> Seq<char> {
    if !has_host(hosts, c.hostname) {
        "Channel '"@ + c.name + "' references unknown host '"@ + c.hostname + "'"@
    } else if is_forwarded_kind(c) {
        "Channel '"@ + c.name + "': forwarded-tcpip requires ports local:remote (e.g. 80:8022)"@
    } else {
        "Channel '"@ + c.name + "': direct-tcpip requires ports local:remote (e.g. 8080:80)"@
    }
}

/// True when a line, trimmed, is a `[[hosts]]` header.
pub open spec fn line_is_hosts_header(l: Seq<char>) -> bool {
    crate::text::trim_spec(l) == "[[hosts]]"@
}

/// How many `[[hosts]]` headers stand among the first `i` lines.
pub open spec fn count_headers(lines: Seq<Seq<char>>, i: int) -> int
    decreases i,
{
    if i <= 0 {
        0
    } else {
        count_headers(lines, i - 1) + if line_is_hosts_header(lines[i - 1]) {
            1int
        } else {
            0int
        }
    }
}

/// True when any of the first `i` lines has a character that is not
/// whitespace.
pub open spec fn exists_nonblank(lines: Seq<Seq<char>>, i: int) -> bool
    decreases i,
{
    if i <= 0 {
        false
    } else {
        exists_nonblank(lines, i - 1) || crate::text::trim_spec(lines[i - 1]).len() != 0
    }
}

/// The comment line written above a host's `[[hosts]]` header.
pub open spec fn spec_host_comment(h: HostView) -> Seq<char> {
    "# Host: "@ + h.name + " ("@ + h.host + ")\n"@
}

/// The commented text from line `i` on: each line followed by a
/// newline; above the header of host number `count` its comment, and
/// a separating blank line where neither the line before nor the
/// text written so far leaves one.
pub open spec fn spec_add_comments(
    lines: Seq<Seq<char>>,
    hosts: Seq<HostView>,
    i: int,
    count: int,
    nonblank: bool,
) -> Seq<char>
    decreases lines.len() - i,
{
    if i < 0 || i >= lines.len() {
        Seq::empty()
    } else {
        let l = lines[i];
        if line_is_hosts_header(l) && count < hosts.len() {
            let blank_before = i > 0 && crate::text::trim_spec(lines[i - 1]).len() == 0;
            let pre: Seq<char> = if !blank_before && nonblank {
                seq!['\n']
            } else {
                Seq::empty()
            };
            pre + spec_host_comment(hosts[count]) + l + seq!['\n'] + spec_add_comments(
                lines,
                hosts,
                i + 1,
                count + 1,
                true,
            )
        } else if line_is_hosts_header(l) {
            l + seq!['\n'] + spec_add_comments(lines, hosts, i + 1, count + 1, true)
        } else {
            l + seq!['\n'] + spec_add_comments(
                lines,
                hosts,
                i + 1,
                count,
                nonblank || crate::text::trim_spec(l).len() != 0,
            )
        }
    }
}

/// The whole commented configuration text.
pub open spec fn spec_add_host_comments(lines: Seq<Seq<char>>, hosts: Seq<HostView>) -> Seq<
    char,
> {
    spec_add_comments(lines, hosts, 0, 0, false)
}

/// Message for a port pair string of the wrong shape.
fn port_shape_error(s: &str, why: &str) -> (r: String)
    ensures
        r@ == "Invalid port format '"@ + s@ + why@ + "'local:dest' (e.g., '80:3923')"@,
{
    let mut m = String::from_str("Invalid port format '");
    m.append(s);
    m.append(why);
    m.append("'local:dest' (e.g., '80:3923')");
    m
}

/// The whole application configuration.
#[derive(Debug)]
pub struct AppConfig {
    /// SSH host definitions.
    pub hosts: Vec<HostConfig>,
    /// Channels referencing hosts by name.
    pub channels: Vec<ConnectionConfig>,
    /// Reconnection settings, shared by every channel.
    pub reconnection: ReconnectionConfig,
}

/// Mathematical model of an `AppConfig`.
#[verifier::ext_equal]
pub struct AppConfigView {
    pub hosts: Seq<HostView>,
    pub channels: Seq<ConnectionView>,
    pub reconnection: ReconnectionConfig,
}

impl View for AppConfig {
    type V = AppConfigView;

    open spec fn view(&self) -> AppConfigView {
        AppConfigView {
            hosts: host_views(self.hosts@),
            channels: connection_views(self.channels@),
            reconnection: self.reconnection,
        }
    }
}

impl Clone for AppConfig {
    fn clone(&self) -> (r: Self)
        ensures
            r@ == self@,
    {
        let mut hosts: Vec<HostConfig> = Vec::new();
        let mut i: usize = 0;
        while i < self.hosts.len()
            invariant
                0 <= i <= self.hosts@.len(),
                hosts@.len() == i,
                forall|k: int| 0 <= k < i ==> (#[trigger] hosts@[k])@ == self.hosts@[k]@,
            decreases self.hosts@.len() - i,
        {
            hosts.push(self.hosts[i].clone());
            i = i + 1;
        }
        let mut channels: Vec<ConnectionConfig> = Vec::new();
        let mut j: usize = 0;
        while j < self.channels.len()
            invariant
                0 <= j <= self.channels@.len(),
                channels@.len() == j,
                forall|k: int| 0 <= k < j ==> (#[trigger] channels@[k])@ == self.channels@[k]@,
            decreases self.channels@.len() - j,
        {
            channels.push(self.channels[j].clone());
            j = j + 1;
        }
        let r = AppConfig { hosts, channels, reconnection: self.reconnection };
        proof {
            assert forall|k: int| 0 <= k < r@.hosts.len() implies r@.hosts[k] == self@.hosts[k] by {
            }
            assert forall|k: int|
                0 <= k < r@.channels.len() implies r@.channels[k] == self@.channels[k] by {}
            assert(r@.hosts =~= self@.hosts);
            assert(r@.channels =~= self@.channels);
            assert(r@ =~= self@);
        }
        r
    }
}

/// True when an SSH config entry carries enough to make a host: an
/// actual host name and a user.
pub open spec fn entry_kept(e: EntryView) -> bool {
    e.hostname is Some && e.user is Some
}

/// The hosts made from a list of SSH config entries: one per kept
/// entry, in order.
pub open spec fn hosts_of_entries(es: Seq<EntryView>) -> Seq<HostView>
    decreases es.len(),
{
    if es.len() == 0 {
        Seq::empty()
    } else {
        hosts_of_entries(es.drop_last()) + if entry_kept(es.last()) {
            seq![host_of_entry(es.last())]
        } else {
            Seq::empty()
        }
    }
}

/// The host a kept SSH config entry turns into: key authentication
/// when the entry names an identity file, otherwise password
/// authentication with a placeholder the user must replace; port 22
/// when the entry names none.
pub open spec fn host_of_entry(e: EntryView) -> HostView {
    HostView {
        name: e.host,
        host: e.hostname->0,
        port: match e.port {
            Some(p) => p,
            None => 22,
        },
        username: e.user->0,
        auth: match e.identity_file {
            Some(p) => AuthView::Key { key_path: p, passphrase: None },
            None => AuthView::Password { password: "CHANGE_ME"@ },
        },
    }
}

impl AppConfig {
    /// Builds a configuration from parsed SSH config entries: one
    /// host per entry that has both a host name and a user, no
    /// channels, default reconnection settings.
    pub fn from_ssh_config_entries(entries: Vec<SshConfigEntry>) -> (r: Self)
        ensures
            r@.hosts == hosts_of_entries(entry_views(entries@)),
            r@.channels.len() == 0,
            r@.reconnection == (ReconnectionConfig {
                max_retries: 0,
                initial_delay_secs: 1,
                max_delay_secs: 30,
                use_exponential_backoff: true,
            }),
    {
        let ghost evs = entry_views(entries@);
        let mut hosts: Vec<HostConfig> = Vec::new();
        let mut i: usize = 0;
        proof {
            assert(evs.take(0) =~= Seq::<EntryView>::empty());
        }
        while i < entries.len()
            invariant
                0 <= i <= entries@.len(),
                evs == entry_views(entries@),
                hosts@.len() == hosts_of_entries(evs.take(i as int)).len(),
                forall|k: int|
                    0 <= k < hosts@.len() ==> (#[trigger] hosts@[k])@ == hosts_of_entries(
                        evs.take(i as int),
                    )[k],
            decreases entries@.len() - i,
        {
            let entry = &entries[i];
            proof {
                assert(evs[i as int] == entries@[i as int]@);
                assert(evs.take(i + 1).drop_last() =~= evs.take(i as int));
                assert(evs.take(i + 1).last() == entry@);
            }
            match (&entry.hostname, &entry.user) {
                (Some(hostname), Some(username)) => {
                    let auth = match &entry.identity_file {
                        Some(key_path) => AuthConfig::Key {
                            key_path: key_path.clone(),
                            passphrase: None,
                        },
                        None => AuthConfig::Password {
                            password: String::from_str("CHANGE_ME"),
                        },
                    };
                    let port = match entry.port {
                        Some(p) => p,
                        None => 22,
                    };
                    let host_cfg = HostConfig {
                        name: entry.host.clone(),
                        host: hostname.clone(),
                        port,
                        username: username.clone(),
                        auth,
                    };
                    proof {
                        assert(entry_kept(entry@));
                        assert(host_cfg@ == host_of_entry(entry@));
                        assert(hosts_of_entries(evs.take(i + 1)) == hosts_of_entries(
                            evs.take(i as int),
                        ) + seq![host_of_entry(entry@)]);
                    }
                    hosts.push(host_cfg);
                },
                _ => {
                    proof {
                        assert(!entry_kept(entry@));
                        assert(hosts_of_entries(evs.take(i + 1)) =~= hosts_of_entries(
                            evs.take(i as int),
                        ));
                    }
                },
            }
            i = i + 1;
        }
        let r = AppConfig {
            hosts,
            channels: Vec::new(),
            reconnection: ReconnectionConfig::default(),
        };
        proof {
            assert(evs.take(entries@.len() as int) =~= evs);
            assert forall|k: int|
                0 <= k < r@.hosts.len() implies r@.hosts[k] == hosts_of_entries(evs)[k] by {}
            assert(r@.hosts =~= hosts_of_entries(evs));
        }
        r
    }

    /// How many `[[hosts]]` header lines stand before `start_pos`,
    /// when that count names a configured host.
    pub fn find_host_index(&self, lines: &Vec<String>, start_pos: usize) -> (r: Option<usize>)
        requires
            start_pos <= lines@.len(),
        ensures
            r is Some <==> count_headers(crate::text::str_views(lines@), start_pos as int)
                < self@.hosts.len(),
            r matches Some(k) ==> k == count_headers(
                crate::text::str_views(lines@),
                start_pos as int,
            ),
    {
        let ghost lv = crate::text::str_views(lines@);
        let mut count: usize = 0;
        let mut i: usize = 0;
        while i < start_pos
            invariant
                0 <= i <= start_pos <= lines@.len(),
                lv == crate::text::str_views(lines@),
                count == count_headers(lv, i as int),
                count <= i,
            decreases start_pos - i,
        {
            proof {
                assert(lv[i as int] == lines@[i as int]@);
            }
            let t = crate::text::trim_str(lines[i].as_str());
            if str_eq(t, "[[hosts]]") {
                count = count + 1;
            }
            i = i + 1;
        }
        if count < self.hosts.len() {
            Some(count)
        } else {
            None
        }
    }

    /// Inserts a comment line naming each host above the `[[hosts]]`
    /// header that introduces it, with a separating blank line where
    /// none precedes, and rejoins the lines with a newline after
    /// each.
    #[verifier::rlimit(60)]
    pub fn add_host_comments(&self, content: &str) -> (r: String)
        ensures
            r@ == spec_add_host_comments(
                crate::text::spec_lines(content@),
                self@.hosts,
            ),
    {
        let ghost hv = self@.hosts;
        let lines = crate::text::split_lines(content);
        let ghost lv = crate::text::str_views(lines@);
        let mut acc = String::new();
        let mut count: usize = 0;
        let mut nonblank: bool = false;
        let mut i: usize = 0;
        while i < lines.len()
            invariant
                0 <= i <= lines@.len(),
                lv == crate::text::str_views(lines@),
                hv == self@.hosts,
                count <= i,
                acc@ + spec_add_comments(lv, hv, i as int, count as int, nonblank)
                    == spec_add_comments(lv, hv, 0, 0, false),
                count as int == count_headers(lv, i as int),
                nonblank == exists_nonblank(lv, i as int),
            decreases lines@.len() - i,
        {
            proof {
                assert(lv[i as int] == lines@[i as int]@);
                if i > 0 {
                    assert(lv[i - 1] == lines@[i - 1]@);
                }
            }
            let ghost acc_pre = acc@;
            let ghost rec_pre = spec_add_comments(lv, hv, i as int, count as int, nonblank);
            let line = &lines[i];
            let t = crate::text::trim_str(line.as_str());
            let is_header = str_eq(t, "[[hosts]]");
            proof {
                reveal_strlit("[[hosts]]");
                assert("[[hosts]]"@.len() == 9);
            }
            if is_header && count < self.hosts.len() {
                let blank_before = if i > 0 {
                    let prev = crate::text::trim_str(lines[i - 1].as_str());
                    prev.is_empty()
                } else {
                    false
                };
                if !blank_before && nonblank {
                    acc.append("\n");
                    proof {
                        reveal_strlit("\n");
                        assert("\n"@ =~= seq!['\n']);
                    }
                }
                let host = &self.hosts[count];
                acc.append("# Host: ");
                acc.append(host.name.as_str());
                acc.append(" (");
                acc.append(host.host.as_str());
                acc.append(")\n");
                acc.append(line.as_str());
                acc.append("\n");
                proof {
                    reveal_strlit("\n");
                    assert("\n"@ =~= seq!['\n']);
                    assert(hv[count as int] == self.hosts@[count as int]@);
                    let bb = i > 0 && crate::text::trim_spec(lv[i - 1]).len() == 0;
                    let pre: Seq<char> = if !bb && nonblank {
                        seq!['\n']
                    } else {
                        Seq::<char>::empty()
                    };
                    let piece = pre + spec_host_comment(hv[count as int]) + lv[i as int] + seq![
                        '\n',
                    ];
                    let rest = spec_add_comments(lv, hv, i + 1, count + 1, true);
                    assert(rec_pre == piece + rest);
                    assert(acc@ =~= acc_pre + piece);
                    assert(acc@ + rest =~= acc_pre + rec_pre);
                }
                count = count + 1;
                nonblank = true;
            } else {
                acc.append(line.as_str());
                acc.append("\n");
                proof {
                    reveal_strlit("\n");
                    assert("\n"@ =~= seq!['\n']);
                    let piece = lv[i as int] + seq!['\n'];
                    let nb2 = if is_header {
                        true
                    } else {
                        nonblank || crate::text::trim_spec(lv[i as int]).len() != 0
                    };
                    let cnt2: int = if is_header {
                        count + 1
                    } else {
                        count as int
                    };
                    let rest = spec_add_comments(lv, hv, i + 1, cnt2, nb2);
                    assert(rec_pre == piece + rest);
                    assert(acc@ =~= acc_pre + piece);
                    assert(acc@ + rest =~= acc_pre + rec_pre);
                }
                if is_header {
                    count = count + 1;
                }
                if !t.is_empty() {
                    nonblank = true;
                }
            }
            i = i + 1;
        }
        proof {
            assert(acc@ + Seq::<char>::empty() =~= acc@);
        }
        acc
    }

    /// Resolves one channel definition against the configured hosts.
    /// Exactly the resolvable definitions succeed; a failure is a
    /// configuration error naming the channel.
    pub fn resolve_channel(&self, conn: &ConnectionConfig) -> (r: Result<ChannelConfig, AppError>)
        ensures
            r is Ok <==> resolvable(self@.hosts, conn@),
            r is Ok ==> r->Ok_0@ == resolution(self@.hosts, conn@),
            r is Err ==> r->Err_0 is Config,
            r is Err ==> crate::error::error_message(r->Err_0) == resolve_error_message(
                self@.hosts,
                conn@,
            ),
    {
        let host_cfg = match find_host(&self.hosts, conn.hostname.as_str()) {
            Some(h) => h,
            None => {
                let mut m = String::from_str("Channel '");
                m.append(conn.name.as_str());
                m.append("' references unknown host '");
                m.append(conn.hostname.as_str());
                m.append("'");
                return Err(AppError::Config(m));
            },
        };
        let is_forwarded = match &conn.channel_type {
            Some(t) => str_eq(t.as_str(), "forwarded-tcpip"),
            None => false,
        };
        let is_session = match &conn.channel_type {
            Some(t) => str_eq(t.as_str(), "session"),
            None => false,
        };
        proof {
            reveal_strlit("direct-tcpip");
            reveal_strlit("forwarded-tcpip");
            reveal_strlit("session");
            assert("direct-tcpip"@.len() == 12);
            assert("forwarded-tcpip"@.len() == 15);
            assert("session"@.len() == 7);
            assert(is_forwarded == is_forwarded_kind(conn@));
            assert(is_session == is_session_kind(conn@));
        }
        let channel_type: String = match &conn.channel_type {
            Some(t) => t.clone(),
            None => String::from_str("direct-tcpip"),
        };
        let params = if is_forwarded {
            let local_connect_port = match conn.ports.local_port {
                Some(p) => p,
                None => {
                    let mut m = String::from_str("Channel '");
                    m.append(conn.name.as_str());
                    m.append("': forwarded-tcpip requires ports local:remote (e.g. 80:8022)");
                    return Err(AppError::Config(m));
                },
            };
            ChannelTypeParams::ForwardedTcpIp {
                remote_bind_port: conn.ports.dest_port,
                local_connect_host: conn.dest_host.clone(),
                local_connect_port,
            }
        } else if is_session {
            ChannelTypeParams::Session { command: None }
        } else {
            let local_port = match conn.ports.local_port {
                Some(p) => p,
                None => {
                    let mut m = String::from_str("Channel '");
                    m.append(conn.name.as_str());
                    m.append("': direct-tcpip requires ports local:remote (e.g. 8080:80)");
                    return Err(AppError::Config(m));
                },
            };
            ChannelTypeParams::DirectTcpIp {
                listen_host: conn.listen_host.clone(),
                local_port,
                dest_host: conn.dest_host.clone(),
                dest_port: conn.ports.dest_port,
            }
        };
        let r = ChannelConfig {
            name: conn.name.clone(),
            host: host_cfg.host.clone(),
            port: host_cfg.port,
            username: host_cfg.username.clone(),
            auth: host_cfg.auth.clone(),
            channel_type,
            params,
        };
        proof {
            assert(r@ =~= resolution(self@.hosts, conn@));
        }
        Ok(r)
    }

    /// Resolves every channel definition, one result per definition
    /// in order. A definition that fails contributes its error and
    /// nothing else; the others still resolve.
    pub fn resolve_channels(&self) -> (r: Vec<Result<ChannelConfig, AppError>>)
        ensures
            r@.len() == self@.channels.len(),
            forall|i: int|
                0 <= i < r@.len() ==> ((#[trigger] r@[i]) is Ok <==> resolvable(
                    self@.hosts,
                    self@.channels[i],
                )),
            forall|i: int|
                0 <= i < r@.len() ==> ((#[trigger] r@[i]) is Ok ==> r@[i]->Ok_0@ == resolution(
                    self@.hosts,
                    self@.channels[i],
                )),
            forall|i: int|
                0 <= i < r@.len() ==> ((#[trigger] r@[i]) is Err ==> r@[i]->Err_0 is Config),
            forall|i: int|
                0 <= i < r@.len() ==> ((#[trigger] r@[i]) is Err ==> crate::error::error_message(
                    r@[i]->Err_0,
                ) == resolve_error_message(self@.hosts, self@.channels[i])),
    {
        let mut out: Vec<Result<ChannelConfig, AppError>> = Vec::new();
        let mut i: usize = 0;
        while i < self.channels.len()
            invariant
                0 <= i <= self.channels@.len(),
                out@.len() == i,
                forall|k: int|
                    0 <= k < i ==> ((#[trigger] out@[k]) is Ok <==> resolvable(
                        self@.hosts,
                        self@.channels[k],
                    )),
                forall|k: int|
                    0 <= k < i ==> ((#[trigger] out@[k]) is Ok ==> out@[k]->Ok_0@ == resolution(
                        self@.hosts,
                        self@.channels[k],
                    )),
                forall|k: int|
                    0 <= k < i ==> ((#[trigger] out@[k]) is Err ==> out@[k]->Err_0 is Config),
                forall|k: int|
                    0 <= k < i ==> ((#[trigger] out@[k]) is Err
                        ==> crate::error::error_message(out@[k]->Err_0) == resolve_error_message(
                        self@.hosts,
                        self@.channels[k],
                    )),
            decreases self.channels@.len() - i,
        {
            let res = self.resolve_channel(&self.channels[i]);
            out.push(res);
            i = i + 1;
        }
        out
    }

    /// Builds the runtime descriptors of every channel, or fails on
    /// the first definition that does not resolve. Succeeds exactly
    /// when every definition resolves.
    pub fn build_channels(&self) -> (r: Result<Vec<ChannelConfig>, AppError>)
        ensures
            r is Ok <==> (forall|i: int|
                0 <= i < self@.channels.len() ==> resolvable(
                    self@.hosts,
                    #[trigger] self@.channels[i],
                )),
            r is Ok ==> r->Ok_0@.len() == self@.channels.len(),
            r is Ok ==> (forall|i: int|
                0 <= i < self@.channels.len() ==> (#[trigger] r->Ok_0@[i])@ == resolution(
                    self@.hosts,
                    self@.channels[i],
                )),
            r is Err ==> r->Err_0 is Config,
    {
        let mut out: Vec<ChannelConfig> = Vec::new();
        let mut i: usize = 0;
        while i < self.channels.len()
            invariant
                0 <= i <= self.channels@.len(),
                out@.len() == i,
                forall|k: int|
                    0 <= k < i ==> resolvable(self@.hosts, #[trigger] self@.channels[k]),
                forall|k: int|
                    0 <= k < i ==> (#[trigger] out@[k])@ == resolution(
                        self@.hosts,
                        self@.channels[k],
                    ),
            decreases self.channels@.len() - i,
        {
            match self.resolve_channel(&self.channels[i]) {
                Ok(cc) => {
                    out.push(cc);
                },
                Err(e) => {
                    proof {
                        assert(self@.channels[i as int] == self.channels@[i as int]@);
                        assert(!resolvable(self@.hosts, self@.channels[i as int]));
                    }
                    return Err(e);
                },
            }
            i = i + 1;
        }
        Ok(out)
    }
}

} // verus!
