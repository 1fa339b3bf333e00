//! Configuration and identity: the recognized settings, and the random
//! agent identity.
use vstd::prelude::*;

use crate::codec::strs_view;
use crate::dur::Dur;
use crate::text::string_of;

verus! {

broadcast use vstd::seq::group_seq_axioms;

/// The settings the agent recognizes, as the loader hands them over.
/// Absent optional settings leave the broker's defaults standing.
#[derive(Debug, Clone)]
pub struct IronhiveConfig {
    /// Broker addresses.
    pub addrs: Vec<String>,
    pub exe_path: String,
    /// The agent identity; also the broker user name.
    pub agent_id: String,
    pub pass: Option<String>,
    pub token: Option<String>,
    pub nkey: Option<String>,
    pub credentials_file: Option<String>,
    pub root_certificates: Option<String>,
    pub client_certificate_cert: Option<String>,
    pub client_certificate_key: Option<String>,
    /// Off unless asked for: plaintext is acceptable by default.
    pub require_tls: Option<bool>,
    pub ping_interval: Option<Dur>,
    pub no_echo: Option<bool>,
    pub subscription_capacity: Option<u64>,
    pub connection_timeout: Option<Dur>,
    pub client_capacity: Option<u64>,
    pub ignore_discovered_servers: Option<bool>,
    pub retain_servers_order: Option<bool>,
    pub read_buffer_capacity: Option<u16>,
}

impl Default for IronhiveConfig {
    /// No addresses, no identity, everything else left to defaults.
    fn default() -> (r: IronhiveConfig)
        ensures
            r.addrs@.len() == 0,
            r.agent_id@.len() == 0,
            r.exe_path@.len() == 0,
            r.pass is None,
            r.token is None,
            r.nkey is None,
            r.credentials_file is None,
            r.root_certificates is None,
            r.client_certificate_cert is None,
            r.client_certificate_key is None,
            r.require_tls is None,
            r.ping_interval is None,
            r.no_echo is None,
            r.subscription_capacity is None,
            r.connection_timeout is None,
            r.client_capacity is None,
            r.ignore_discovered_servers is None,
            r.retain_servers_order is None,
            r.read_buffer_capacity is None,
    {
        proof {
            reveal_strlit("");
        }
        IronhiveConfig {
            addrs: Vec::new(),
            exe_path: string_of(""),
            agent_id: string_of(""),
            pass: None,
            token: None,
            nkey: None,
            credentials_file: None,
            root_certificates: None,
            client_certificate_cert: None,
            client_certificate_key: None,
            require_tls: None,
            ping_interval: None,
            no_echo: None,
            subscription_capacity: None,
            connection_timeout: None,
            client_capacity: None,
            ignore_discovered_servers: None,
            retain_servers_order: None,
            read_buffer_capacity: None,
        }
    }
}

impl IronhiveConfig {
    /// A fresh installation's settings: the addresses and identity,
    /// every other field its default, so no credential, TLS or tuning
    /// option is set implicitly.
    pub fn init(addrs: Vec<String>, agent_id: String) -> (r: IronhiveConfig)
        ensures
            strs_view(r.addrs) =~= strs_view(addrs),
            r.agent_id@ == agent_id@,
            r.exe_path@.len() == 0,
            r.pass is None,
            r.token is None,
            r.nkey is None,
            r.credentials_file is None,
            r.root_certificates is None,
            r.client_certificate_cert is None,
            r.client_certificate_key is None,
            r.require_tls is None,
            r.ping_interval is None,
            r.no_echo is None,
            r.subscription_capacity is None,
            r.connection_timeout is None,
            r.client_capacity is None,
            r.ignore_discovered_servers is None,
            r.retain_servers_order is None,
            r.read_buffer_capacity is None,
    {
        let mut c = IronhiveConfig::default();
        c.addrs = addrs;
        c.agent_id = agent_id;
        c
    }
}

/// The prefix under which environment overlays are read; a variable
/// `IRONHIVE_<KEY>` overrides the file setting `<key>`.
pub fn environment() -> (r: String)
    ensures
        r@ == "ironhive"@,
{
    string_of("ironhive")
}

/// Relies on `rand::random_range`: a uniformly drawn value below the
/// bound; nothing more is promised of it.
#[verifier::external_body]
fn random_below(bound: u32) -> (r: u32)
    requires
        bound > 0,
    ensures
        r < bound,
{
    rand::random_range(0..bound)
}

pub open spec fn is_id_char(c: char) -> bool {
    ('a' <= c && c <= 'z') || ('A' <= c && c <= 'Z')
}

/// A fresh forty-character identity of ASCII letters, drawn uniformly.
pub fn generate_agent_id() -> (r: String)
    ensures
        r@.len() == 40,
        forall|i: int| 0 <= i < r@.len() ==> is_id_char(#[trigger] r@[i]),
{
    let mut out: Vec<char> = Vec::new();
    let mut i: usize = 0;
    while i < 40
        invariant
            0 <= i <= 40,
            out@.len() == i,
            forall|k: int| 0 <= k < i ==> is_id_char(#[trigger] out@[k]),
        decreases 40 - i,
    {
        let d = random_below(52);
        let c: char = if d < 26 {
            let b: u8 = ('a' as u8) + (d as u8);
            proof {
                assert(is_id_char((('a' as u8) + (d as u8)) as char));
            }
            b as char
        } else {
            let b: u8 = ('A' as u8) + ((d - 26) as u8);
            proof {
                assert(is_id_char((('A' as u8) + ((d - 26) as u8)) as char));
            }
            b as char
        };
        out.push(c);
        i = i + 1;
    }
    crate::text::string_from_chars(&out)
}


/// An installation request: where the agent will connect, where its
/// binary sits, and whether an existing configuration is replaced.
#[derive(Debug, Clone)]
pub struct Installer {
    pub nats_servers: Vec<String>,
    pub exe_path: String,
    pub overwrite_config: bool,
}

impl Installer {
    /// The configuration an installation writes: the given addresses
    /// under a fresh identity. An installation without a single broker
    /// address is refused.
    pub fn build_config(&self) -> (r: Result<IronhiveConfig, crate::error::Error>)
        ensures
            self.nats_servers@.len() == 0 <==> r is Err,
            r matches Ok(c) ==> strs_view(c.addrs) =~= strs_view(self.nats_servers)
                && c.agent_id@.len() == 40 && c.exe_path@ == self.exe_path@,
    {
        if self.nats_servers.len() == 0 {
            return Err(
                crate::error::Error::IoError(
                    string_of("At least one NATS server address must be set."),
                ),
            );
        }
        let agent_id = generate_agent_id();
        let mut c = IronhiveConfig::init(clone_strs(&self.nats_servers), agent_id);
        c.exe_path = self.exe_path.clone();
        Ok(c)
    }
}

/// A removal request; the runner deletes the configuration directory.
#[derive(Debug, Clone)]
pub struct Uninstaller;

/// A request to drop the platform service registration by name.
#[derive(Debug, Clone)]
pub struct ServiceUninstaller {
    pub name: String,
}

/// A copy of a string list with the same views.
fn clone_strs(v: &Vec<String>) -> (r: Vec<String>)
    ensures
        strs_view(r) =~= strs_view(*v),
{
    let mut out: Vec<String> = Vec::new();
    let mut i: usize = 0;
    while i < v.len()
        invariant
            0 <= i <= v@.len(),
            strs_view(out) =~= strs_view(*v).take(i as int),
        decreases v@.len() - i,
    {
        let ghost pre = out;
        out.push(v[i].clone());
        proof {
            assert(strs_view(out) =~= strs_view(pre).push(strs_view(*v)[i as int]));
            assert(strs_view(*v).take(i + 1) =~= strs_view(*v).take(i as int).push(
                strs_view(*v)[i as int],
            ));
        }
        i = i + 1;
    }
    proof {
        assert(strs_view(*v).take(v@.len() as int) =~= strs_view(*v));
    }
    out
}


/// The reconnect backoff of one attempt: a drawn base of two to four
/// seconds (in milliseconds) multiplied by the attempt count, saturated
/// at the largest span.
pub fn reconnect_delay(base_millis: u64, attempt: u64) -> (r: crate::dur::Dur)
    requires
        2000 <= base_millis < 4000,
    ensures
        r.wf(),
        base_millis * attempt <= u64::MAX ==> r.secs == base_millis * attempt / 1000
            && r.nanos == base_millis * attempt % 1000 * 1000000,
        base_millis * attempt > u64::MAX ==> r.secs == u64::MAX / 1000,
{
    let total = match base_millis.checked_mul(attempt) {
        Some(t) => t,
        None => u64::MAX,
    };
    let nanos32: u32 = (total % 1000) as u32 * 1000000;
    crate::dur::Dur { secs: total / 1000, nanos: nanos32 }
}

/// One drawn backoff for an attempt: the base is uniform over the
/// two-to-four-second band.
pub fn reconnect_delay_draw(attempt: u64) -> (r: crate::dur::Dur)
    ensures
        r.wf(),
        exists|base: u64|
            2000 <= base < 4000 && (base * attempt <= u64::MAX ==> r.secs == #[trigger] (base
                * attempt) / 1000 && r.nanos == base * attempt % 1000 * 1000000),
{
    let base: u64 = 2000 + random_below(2000) as u64;
    let r = reconnect_delay(base, attempt);
    proof {
        if base * attempt <= u64::MAX {
            assert(r.secs == (base * attempt) / 1000 && r.nanos == base * attempt % 1000
                * 1000000);
        }
    }
    r
}

} // verus!
