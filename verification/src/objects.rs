//! Reading the `INFO` server descriptor and the `CONNECT` options object
//! out of a parsed JSON tree.  Required members must be present with the
//! right type; optional members may be absent or null; wrongly-typed or
//! out-of-range members reject the whole object; unknown members are
//! ignored.

use vstd::prelude::*;

use crate::commands::{Connect, ConnectV, Info, InfoV};
use crate::json::{
    get_opt_bool, get_opt_str, get_opt_str_arr, get_opt_u64, get_req_bool, get_req_str,
    get_req_u64, opt_bool, opt_str, opt_str_arr, opt_u64, req_bool, req_str, req_u64, Json,
};

verus! {

/// The server descriptor a JSON value denotes, if it is a well-formed one.
pub open spec fn info_of_json(j: Json) -> Option<InfoV> {
    match j {
        Json::Obj(o) => if req_str(o@, "server_id"@) is Some && req_str(
            o@,
            "server_name"@,
        ) is Some && req_str(o@, "version"@) is Some && req_str(o@, "go"@) is Some
            && req_str(o@, "host"@) is Some && (req_u64(o@, "port"@) matches Some(p)
            && p <= u32::MAX) && req_bool(o@, "headers"@) is Some && (req_u64(
            o@,
            "max_payload"@,
        ) matches Some(mp) && mp <= usize::MAX) && (req_u64(o@, "proto"@) matches Some(pr)
            && pr <= u8::MAX) && opt_u64(o@, "client_id"@) is Some && opt_bool(
            o@,
            "auth_required"@,
        ) is Some && opt_bool(o@, "tls_required"@) is Some && opt_bool(
            o@,
            "tls_verify"@,
        ) is Some && opt_bool(o@, "tls_available"@) is Some && opt_str_arr(
            o@,
            "connect_urls"@,
        ) is Some && opt_str_arr(o@, "ws_connect_urls"@) is Some && opt_bool(
            o@,
            "ldm"@,
        ) is Some && opt_str(o@, "git_commit"@) is Some && opt_bool(
            o@,
            "jetstream"@,
        ) is Some && opt_str(o@, "ip"@) is Some && opt_str(o@, "client_ip"@) is Some
            && opt_str(o@, "nonce"@) is Some && opt_str(o@, "cluster"@) is Some && opt_str(
            o@,
            "domain"@,
        ) is Some {
            Some(
                InfoV {
                    server_id: req_str(o@, "server_id"@)->Some_0,
                    server_name: req_str(o@, "server_name"@)->Some_0,
                    version: req_str(o@, "version"@)->Some_0,
                    go: req_str(o@, "go"@)->Some_0,
                    host: req_str(o@, "host"@)->Some_0,
                    port: req_u64(o@, "port"@)->Some_0 as u32,
                    headers: req_bool(o@, "headers"@)->Some_0,
                    max_payload: req_u64(o@, "max_payload"@)->Some_0 as usize,
                    proto: req_u64(o@, "proto"@)->Some_0 as u8,
                    client_id: opt_u64(o@, "client_id"@)->Some_0,
                    auth_required: opt_bool(o@, "auth_required"@)->Some_0,
                    tls_required: opt_bool(o@, "tls_required"@)->Some_0,
                    tls_verify: opt_bool(o@, "tls_verify"@)->Some_0,
                    tls_available: opt_bool(o@, "tls_available"@)->Some_0,
                    connect_urls: opt_str_arr(o@, "connect_urls"@)->Some_0,
                    ws_connect_urls: opt_str_arr(o@, "ws_connect_urls"@)->Some_0,
                    ldm: opt_bool(o@, "ldm"@)->Some_0,
                    git_commit: opt_str(o@, "git_commit"@)->Some_0,
                    jetstream: opt_bool(o@, "jetstream"@)->Some_0,
                    ip: opt_str(o@, "ip"@)->Some_0,
                    client_ip: opt_str(o@, "client_ip"@)->Some_0,
                    nonce: opt_str(o@, "nonce"@)->Some_0,
                    cluster: opt_str(o@, "cluster"@)->Some_0,
                    domain: opt_str(o@, "domain"@)->Some_0,
                },
            )
        } else {
            None
        },
        _ => None,
    }
}

/// Extract a server descriptor from a parsed JSON value.
pub fn info_from_json(j: &Json) -> (r: Option<Info>)
    ensures
        match r {
            Some(info) => info_of_json(*j) == Some(info@),
            None => info_of_json(*j) is None,
        },
{
    let o = match j {
        Json::Obj(o) => o,
        _ => {
            return None;
        },
    };
    let server_id = match get_req_str(o, "server_id") {
        None => {
            return None;
        },
        Some(v) => v,
    };
    let server_name = match get_req_str(o, "server_name") {
        None => {
            return None;
        },
        Some(v) => v,
    };
    let version = match get_req_str(o, "version") {
        None => {
            return None;
        },
        Some(v) => v,
    };
    let go = match get_req_str(o, "go") {
        None => {
            return None;
        },
        Some(v) => v,
    };
    let host = match get_req_str(o, "host") {
        None => {
            return None;
        },
        Some(v) => v,
    };
    let port64 = match get_req_u64(o, "port") {
        None => {
            return None;
        },
        Some(v) => v,
    };
    if port64 > u32::MAX as u64 {
        return None;
    }
    let headers = match get_req_bool(o, "headers") {
        None => {
            return None;
        },
        Some(v) => v,
    };
    let max_payload64 = match get_req_u64(o, "max_payload") {
        None => {
            return None;
        },
        Some(v) => v,
    };
    if max_payload64 > usize::MAX as u64 {
        return None;
    }
    let proto64 = match get_req_u64(o, "proto") {
        None => {
            return None;
        },
        Some(v) => v,
    };
    if proto64 > u8::MAX as u64 {
        return None;
    }
    let client_id = match get_opt_u64(o, "client_id") {
        None => {
            return None;
        },
        Some(v) => v,
    };
    let auth_required = match get_opt_bool(o, "auth_required") {
        None => {
            return None;
        },
        Some(v) => v,
    };
    let tls_required = match get_opt_bool(o, "tls_required") {
        None => {
            return None;
        },
        Some(v) => v,
    };
    let tls_verify = match get_opt_bool(o, "tls_verify") {
        None => {
            return None;
        },
        Some(v) => v,
    };
    let tls_available = match get_opt_bool(o, "tls_available") {
        None => {
            return None;
        },
        Some(v) => v,
    };
    let connect_urls = match get_opt_str_arr(o, "connect_urls") {
        None => {
            return None;
        },
        Some(v) => v,
    };
    let ws_connect_urls = match get_opt_str_arr(o, "ws_connect_urls") {
        None => {
            return None;
        },
        Some(v) => v,
    };
    let ldm = match get_opt_bool(o, "ldm") {
        None => {
            return None;
        },
        Some(v) => v,
    };
    let git_commit = match get_opt_str(o, "git_commit") {
        None => {
            return None;
        },
        Some(v) => v,
    };
    let jetstream = match get_opt_bool(o, "jetstream") {
        None => {
            return None;
        },
        Some(v) => v,
    };
    let ip = match get_opt_str(o, "ip") {
        None => {
            return None;
        },
        Some(v) => v,
    };
    let client_ip = match get_opt_str(o, "client_ip") {
        None => {
            return None;
        },
        Some(v) => v,
    };
    let nonce = match get_opt_str(o, "nonce") {
        None => {
            return None;
        },
        Some(v) => v,
    };
    let cluster = match get_opt_str(o, "cluster") {
        None => {
            return None;
        },
        Some(v) => v,
    };
    let domain = match get_opt_str(o, "domain") {
        None => {
            return None;
        },
        Some(v) => v,
    };
    let info = Info {
        server_id,
        server_name,
        version,
        go,
        host,
        port: port64 as u32,
        headers,
        max_payload: max_payload64 as usize,
        proto: proto64 as u8,
        client_id,
        auth_required,
        tls_required,
        tls_verify,
        tls_available,
        connect_urls,
        ws_connect_urls,
        ldm,
        git_commit,
        jetstream,
        ip,
        client_ip,
        nonce,
        cluster,
        domain,
    };
    Some(info)
}

/// The connect options a JSON value denotes, if it is a well-formed object.
pub open spec fn connect_of_json(j: Json) -> Option<ConnectV> {
    match j {
        Json::Obj(o) => if req_bool(o@, "verbose"@) is Some && req_bool(
            o@,
            "pedantic"@,
        ) is Some && req_bool(o@, "tls_required"@) is Some && opt_str(
            o@,
            "auth_token"@,
        ) is Some && opt_str(o@, "user"@) is Some && opt_str(o@, "pass"@) is Some
            && opt_str(o@, "name"@) is Some && req_str(o@, "lang"@) is Some && req_str(
            o@,
            "version"@,
        ) is Some && (match opt_u64(o@, "protocol"@) {
            Some(None) => true,
            Some(Some(p)) => p <= u8::MAX,
            None => false,
        }) && opt_bool(o@, "echo"@) is Some && opt_str(o@, "sig"@) is Some && opt_str(
            o@,
            "jwt"@,
        ) is Some && opt_bool(o@, "no_responders"@) is Some && opt_bool(
            o@,
            "headers"@,
        ) is Some && opt_str(o@, "nkey"@) is Some {
            Some(
                ConnectV {
                    verbose: req_bool(o@, "verbose"@)->Some_0,
                    pedantic: req_bool(o@, "pedantic"@)->Some_0,
                    tls_required: req_bool(o@, "tls_required"@)->Some_0,
                    auth_token: opt_str(o@, "auth_token"@)->Some_0,
                    user: opt_str(o@, "user"@)->Some_0,
                    pass: opt_str(o@, "pass"@)->Some_0,
                    name: opt_str(o@, "name"@)->Some_0,
                    lang: req_str(o@, "lang"@)->Some_0,
                    version: req_str(o@, "version"@)->Some_0,
                    protocol: match opt_u64(o@, "protocol"@)->Some_0 {
                        None => None,
                        Some(p) => Some(p as u8),
                    },
                    echo: opt_bool(o@, "echo"@)->Some_0,
                    sig: opt_str(o@, "sig"@)->Some_0,
                    jwt: opt_str(o@, "jwt"@)->Some_0,
                    no_responders: opt_bool(o@, "no_responders"@)->Some_0,
                    headers: opt_bool(o@, "headers"@)->Some_0,
                    nkey: opt_str(o@, "nkey"@)->Some_0,
                },
            )
        } else {
            None
        },
        _ => None,
    }
}

/// Extract connect options from a parsed JSON value.
pub fn connect_from_json(j: &Json) -> (r: Option<Connect>)
    ensures
        match r {
            Some(c) => connect_of_json(*j) == Some(c@),
            None => connect_of_json(*j) is None,
        },
{
    let o = match j {
        Json::Obj(o) => o,
        _ => {
            return None;
        },
    };
    let verbose = match get_req_bool(o, "verbose") {
        None => {
            return None;
        },
        Some(v) => v,
    };
    let pedantic = match get_req_bool(o, "pedantic") {
        None => {
            return None;
        },
        Some(v) => v,
    };
    let tls_required = match get_req_bool(o, "tls_required") {
        None => {
            return None;
        },
        Some(v) => v,
    };
    let auth_token = match get_opt_str(o, "auth_token") {
        None => {
            return None;
        },
        Some(v) => v,
    };
    let user = match get_opt_str(o, "user") {
        None => {
            return None;
        },
        Some(v) => v,
    };
    let pass = match get_opt_str(o, "pass") {
        None => {
            return None;
        },
        Some(v) => v,
    };
    let name = match get_opt_str(o, "name") {
        None => {
            return None;
        },
        Some(v) => v,
    };
    let lang = match get_req_str(o, "lang") {
        None => {
            return None;
        },
        Some(v) => v,
    };
    let version = match get_req_str(o, "version") {
        None => {
            return None;
        },
        Some(v) => v,
    };
    let protocol64 = match get_opt_u64(o, "protocol") {
        None => {
            return None;
        },
        Some(v) => v,
    };
    let protocol = match protocol64 {
        None => None,
        Some(p) => {
            if p > u8::MAX as u64 {
                return None;
            }
            Some(p as u8)
        },
    };
    let echo = match get_opt_bool(o, "echo") {
        None => {
            return None;
        },
        Some(v) => v,
    };
    let sig = match get_opt_str(o, "sig") {
        None => {
            return None;
        },
        Some(v) => v,
    };
    let jwt = match get_opt_str(o, "jwt") {
        None => {
            return None;
        },
        Some(v) => v,
    };
    let no_responders = match get_opt_bool(o, "no_responders") {
        None => {
            return None;
        },
        Some(v) => v,
    };
    let headers = match get_opt_bool(o, "headers") {
        None => {
            return None;
        },
        Some(v) => v,
    };
    let nkey = match get_opt_str(o, "nkey") {
        None => {
            return None;
        },
        Some(v) => v,
    };
    let c = Connect {
        verbose,
        pedantic,
        tls_required,
        auth_token,
        user,
        pass,
        name,
        lang,
        version,
        protocol,
        echo,
        sig,
        jwt,
        no_responders,
        headers,
        nkey,
    };
    Some(c)
}

} // verus!
