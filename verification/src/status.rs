//! Response models and the conversion of a ping result into a response.

use vstd::prelude::*;

pub use crate::cache::Cache;
pub use crate::motd::{MotdResponse, build_motd, mc_to_ansi, mc_to_html};

use crate::motd::{motd_ansi, motd_html, motd_plain};

verus! {

/// Error produced by a failed status query (kept as a plain message).
pub struct QueryError(pub String);

/// Error body of a reply.
pub struct ErrorResponse {
    pub error: String,
}

/// Player counts as reported by a server.
pub struct PlayersResponse {
    pub online: i64,
    pub max: i64,
}

/// Status of one server.
pub struct StatusResponse {
    pub online: bool,
    pub players: PlayersResponse,
    /// Measured latency in milliseconds, carried as the bit pattern of the
    /// `f64` that the ping produced (`f64::to_bits`); this library never
    /// computes with it.
    pub delay_bits: u64,
    pub version: String,
    pub motd: MotdResponse,
    /// Base64 server icon (Java only).
    pub icon: Option<String>,
}

/// What a Java Edition ping reports, as plain values.
pub struct JavaStatus {
    pub online: bool,
    pub players_online: i64,
    pub players_max: i64,
    /// Bit pattern of the latency in milliseconds.
    pub latency_bits: u64,
    pub version: String,
    /// Raw MOTD with `§`-codes.
    pub motd: String,
    /// Base64 favicon, possibly with a `data:image/png;base64,` prefix.
    pub favicon: Option<String>,
}

/// What a Bedrock Edition ping reports, as plain values.
pub struct BedrockStatus {
    pub online: bool,
    pub players_online: u32,
    pub players_max: u32,
    /// Bit pattern of the latency in milliseconds.
    pub latency_bits: u64,
    pub version: String,
    /// Raw MOTD with `§`-codes.
    pub motd: String,
}

fn copy_string(s: &String) -> (r: String)
    ensures
        r == *s,
{
    s.clone()
}

fn copy_opt_string(s: &Option<String>) -> (r: Option<String>)
    ensures
        r == *s,
{
    match s {
        Some(v) => Some(v.clone()),
        None => None,
    }
}

impl MotdResponse {
    /// A copy equal to `self`.
    pub fn duplicate(&self) -> (r: MotdResponse)
        ensures
            r == *self,
    {
        MotdResponse {
            plain: copy_string(&self.plain),
            html: copy_string(&self.html),
            minecraft: copy_string(&self.minecraft),
            ansi: copy_string(&self.ansi),
        }
    }
}

impl StatusResponse {
    /// A copy equal to `self`.
    pub fn duplicate(&self) -> (r: StatusResponse)
        ensures
            r == *self,
    {
        StatusResponse {
            online: self.online,
            players: PlayersResponse { online: self.players.online, max: self.players.max },
            delay_bits: self.delay_bits,
            version: copy_string(&self.version),
            motd: self.motd.duplicate(),
            icon: copy_opt_string(&self.icon),
        }
    }
}

/// The MOTD renderings of `raw`.
pub open spec fn motd_of(m: MotdResponse, raw: Seq<char>) -> bool {
    &&& m.plain@ == motd_plain(raw)
    &&& m.html@ == motd_html(raw)
    &&& m.minecraft@ == raw
    &&& m.ansi@ == motd_ansi(raw)
}

/// Response for a Java Edition ping.
pub fn build_java_response(status: &JavaStatus) -> (resp: StatusResponse)
    ensures
        resp.online == status.online,
        resp.players.online == status.players_online,
        resp.players.max == status.players_max,
        resp.delay_bits == status.latency_bits,
        resp.version@ == status.version@,
        motd_of(resp.motd, status.motd@),
        resp.icon == status.favicon,
{
    StatusResponse {
        online: status.online,
        players: PlayersResponse { online: status.players_online, max: status.players_max },
        delay_bits: status.latency_bits,
        version: copy_string(&status.version),
        motd: build_motd(status.motd.as_str()),
        icon: copy_opt_string(&status.favicon),
    }
}

/// Response for a Bedrock Edition ping (Bedrock servers have no icon).
pub fn build_bedrock_response(status: &BedrockStatus) -> (resp: StatusResponse)
    ensures
        resp.online == status.online,
        resp.players.online == status.players_online as i64,
        resp.players.max == status.players_max as i64,
        resp.delay_bits == status.latency_bits,
        resp.version@ == status.version@,
        motd_of(resp.motd, status.motd@),
        resp.icon is None,
{
    StatusResponse {
        online: status.online,
        players: PlayersResponse {
            online: status.players_online as i64,
            max: status.players_max as i64,
        },
        delay_bits: status.latency_bits,
        version: copy_string(&status.version),
        motd: build_motd(status.motd.as_str()),
        icon: None,
    }
}

} // verus!
