//! The per-target result record and its constructors. Every probed target
//! yields exactly one `ScanResult`; a set `error` field means the probe did
//! not complete normally, and all optional fields are absent in that case.

use vstd::prelude::*;

use crate::motd::ChatComponent;
use crate::motd::flatten_component;
use crate::motd::parse_motd;

verus! {

/// One entry of a status response's player sample.
pub struct Player {
    pub name: String,
    pub uuid: String,
}

/// The version block of a status response.
pub struct VersionInfo {
    pub name: String,
    pub protocol: i32,
}

/// The players block of a status response.
pub struct PlayersInfo {
    pub max: i32,
    pub online: i32,
    pub sample: Option<Vec<Player>>,
}

/// A parsed status response, every field optional as it is in the JSON
/// document; the description still carries its chat-component tree.
pub struct StatusResponse {
    pub version: Option<VersionInfo>,
    pub players: Option<PlayersInfo>,
    pub description: Option<ChatComponent>,
    pub favicon: Option<String>,
}

/// One scan's outcome for one target.
pub struct ScanResult {
    pub ip: String,
    pub port: u16,
    pub motd: Option<String>,
    pub version: Option<String>,
    pub protocol: Option<i32>,
    pub max_players: Option<i32>,
    pub online_players: Option<i32>,
    pub players: Option<Vec<Player>>,
    pub favicon: Option<String>,
    pub auth_mode: Option<i32>,
    pub error: Option<String>,
}

impl ScanResult {
    /// The result of a probe that failed before producing any status data:
    /// the error message is set and every other optional field is absent.
    pub fn failed(ip: String, port: u16, error: String) -> (r: ScanResult)
        ensures
            r.ip == ip,
            r.port == port,
            r.error == Some(error),
            r.motd is None,
            r.version is None,
            r.protocol is None,
            r.max_players is None,
            r.online_players is None,
            r.players is None,
            r.favicon is None,
            r.auth_mode is None,
    {
        ScanResult {
            ip,
            port,
            motd: None,
            version: None,
            protocol: None,
            max_players: None,
            online_players: None,
            players: None,
            favicon: None,
            auth_mode: None,
            error: Some(error),
        }
    }

    /// The result of a probe whose status phase succeeded: each optional
    /// field is present exactly when the response carries the block it
    /// comes from, the description is flattened to the plain MOTD text, and
    /// no error is set.
    pub fn from_status(ip: String, port: u16, response: StatusResponse, auth_mode: Option<
        i32,
    >) -> (r: ScanResult)
        ensures
            r.ip == ip,
            r.port == port,
            r.error is None,
            r.auth_mode == auth_mode,
            r.favicon == response.favicon,
            (match response.version {
                Some(v) => r.version == Some(v.name) && r.protocol == Some(v.protocol),
                None => r.version is None && r.protocol is None,
            }),
            (match response.players {
                Some(p) => r.max_players == Some(p.max) && r.online_players == Some(p.online)
                    && r.players == p.sample,
                None => r.max_players is None && r.online_players is None && r.players is None,
            }),
            (match response.description {
                Some(d) => r.motd matches Some(m) && m@ == flatten_component(d),
                None => r.motd is None,
            }),
    {
        let StatusResponse { version, players, description, favicon } = response;
        let (vname, vproto) = match version {
            Some(v) => (Some(v.name), Some(v.protocol)),
            None => (None, None),
        };
        let (maxp, onlinep, sample) = match players {
            Some(p) => (Some(p.max), Some(p.online), p.sample),
            None => (None, None, None),
        };
        let motd = match description {
            Some(d) => Some(parse_motd(&d)),
            None => None,
        };
        ScanResult {
            ip,
            port,
            motd,
            version: vname,
            protocol: vproto,
            max_players: maxp,
            online_players: onlinep,
            players: sample,
            favicon,
            auth_mode,
            error: None,
        }
    }
}

} // verus!
