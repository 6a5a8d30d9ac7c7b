use vstd::prelude::*;
use vstd::string::StringSliceAdditionalSpecFns;
use vstd::utf8::encode_utf8;

use crate::errors::{ConfigError, ServerError};
use crate::parse::{
    dec_nat, host_matches, parse_host, parse_u16, valid_host_literal, valid_port_literal, HostAddr,
};

verus! {

/// Filesystem paths to the PEM certificate chain and the PKCS#8 private key.
#[derive(Debug)]
pub struct TlsSettings {
    pub cert_path: String,
    pub key_path: String,
}

/// The process configuration: main bind host and port, and the optional
/// TLS material paths. Loaded once at startup and immutable afterwards.
#[derive(Debug)]
pub struct AppConfig {
    pub host: String,
    pub port: u16,
    pub tls: Option<TlsSettings>,
}

/// One configuration layer: every field optional, values as written
/// (ports still strings), before any merging.
#[derive(Debug)]
pub struct ConfigLayer {
    pub host: Option<String>,
    pub port: Option<String>,
    pub tls_cert: Option<String>,
    pub tls_key: Option<String>,
}

pub open spec fn opt_view(o: Option<String>) -> Option<Seq<char>> {
    match o {
        Some(s) => Some(s@),
        None => None,
    }
}

/// The value a field takes after merging: the environment wins over the
/// file, the file over the built-in defaults.
pub open spec fn chosen(
    env: Option<Seq<char>>,
    file: Option<Seq<char>>,
    def: Option<Seq<char>>,
) -> Option<Seq<char>> {
    if env is Some {
        env
    } else if file is Some {
        file
    } else {
        def
    }
}

/// Pick one field's value by layer precedence.
fn pick(env: &Option<String>, file: &Option<String>, def: &Option<String>) -> (r: Option<String>)
    ensures
        opt_view(r) == chosen(opt_view(*env), opt_view(*file), opt_view(*def)),
{
    match env {
        Some(v) => Some(v.clone()),
        None => match file {
            Some(v) => Some(v.clone()),
            None => match def {
                Some(v) => Some(v.clone()),
                None => None,
            },
        },
    }
}

/// Merge the three configuration layers, environment over file over
/// defaults, and parse the winning port value. The host and port are
/// required; TLS is enabled exactly when both path fields end up present.
pub fn resolve_config(defaults: &ConfigLayer, file: &ConfigLayer, env: &ConfigLayer) -> (r: Result<
    AppConfig,
    ConfigError,
>)
    ensures
        ({
            let h = chosen(opt_view(env.host), opt_view(file.host), opt_view(defaults.host));
            let p = chosen(opt_view(env.port), opt_view(file.port), opt_view(defaults.port));
            let c = chosen(
                opt_view(env.tls_cert),
                opt_view(file.tls_cert),
                opt_view(defaults.tls_cert),
            );
            let k = chosen(
                opt_view(env.tls_key),
                opt_view(file.tls_key),
                opt_view(defaults.tls_key),
            );
            match r {
                Ok(cfg) => {
                    &&& h is Some
                    &&& cfg.host@ == h->0
                    &&& p is Some
                    &&& valid_port_literal(encode_utf8(p->0))
                    &&& cfg.port as nat == dec_nat(encode_utf8(p->0))
                    &&& match (c, k) {
                        (Some(cp), Some(kp)) => {
                            &&& cfg.tls is Some
                            &&& cfg.tls->0.cert_path@ == cp
                            &&& cfg.tls->0.key_path@ == kp
                        },
                        _ => cfg.tls is None,
                    }
                },
                Err(e) => {
                    &&& (e is MissingHost <==> h is None)
                    &&& (e is MissingPort <==> h is Some && p is None)
                    &&& (e is MalformedPort <==> h is Some && p is Some && !valid_port_literal(
                        encode_utf8(p->0),
                    ))
                },
            }
        }),
{
    let host = match pick(&env.host, &file.host, &defaults.host) {
        Some(h) => h,
        None => {
            return Err(ConfigError::MissingHost);
        },
    };
    let port_text = match pick(&env.port, &file.port, &defaults.port) {
        Some(p) => p,
        None => {
            return Err(ConfigError::MissingPort);
        },
    };
    let port = match parse_u16(port_text.as_str()) {
        Some(p) => p,
        None => {
            return Err(ConfigError::MalformedPort);
        },
    };
    let cert = pick(&env.tls_cert, &file.tls_cert, &defaults.tls_cert);
    let key = pick(&env.tls_key, &file.tls_key, &defaults.tls_key);
    let tls = match (cert, key) {
        (Some(cert_path), Some(key_path)) => Some(TlsSettings { cert_path, key_path }),
        _ => None,
    };
    Ok(AppConfig { host, port, tls })
}

/// The health server's bind host: the given value, or the loopback
/// default when none is set.
pub fn health_host(var: Option<String>) -> (r: String)
    ensures
        match var {
            Some(v) => r@ == v@,
            None => r@ == "127.0.0.1"@,
        },
{
    match var {
        Some(v) => v,
        None => "127.0.0.1".to_owned(),
    }
}

/// The health server's port: the given value when it parses as a port,
/// the default otherwise.
pub fn health_port(var: Option<&str>) -> (r: u16)
    ensures
        match var {
            Some(v) => if valid_port_literal(v.spec_bytes()) {
                r as nat == dec_nat(v.spec_bytes())
            } else {
                r == 18080
            },
            None => r == 18080,
        },
{
    match var {
        Some(v) => match parse_u16(v) {
            Some(p) => p,
            None => 18080,
        },
        None => 18080,
    }
}

/// The health server's bind address: the given host, or the loopback
/// default, validated as an address literal, paired with the given port
/// when it parses and the default port otherwise. As with the main
/// address, an unparsable host is fatal before anything is spawned; an
/// unparsable port is not, and falls back to the default.
pub fn health_bind_addr(host_var: Option<String>, port_var: Option<&str>) -> (r: Result<
    BindAddr,
    ServerError,
>)
    ensures
        ({
            let h = match host_var {
                Some(v) => v@,
                None => "127.0.0.1"@,
            };
            &&& (r is Ok <==> valid_host_literal(encode_utf8(h)))
            &&& (r is Err ==> r->Err_0 is AddressParse)
            &&& (r is Ok ==> host_matches(r->Ok_0.host, encode_utf8(h)))
            &&& (r is Ok ==> match port_var {
                Some(v) => if valid_port_literal(v.spec_bytes()) {
                    r->Ok_0.port as nat == dec_nat(v.spec_bytes())
                } else {
                    r->Ok_0.port == 18080
                },
                None => r->Ok_0.port == 18080,
            })
        }),
{
    let host = health_host(host_var);
    let port = health_port(port_var);
    match parse_host(host.as_str()) {
        Some(h) => Ok(BindAddr { host: h, port }),
        None => Err(ServerError::AddressParse),
    }
}

/// A validated main bind address: the parsed host octets and the port.
#[derive(Debug)]
pub struct BindAddr {
    pub host: HostAddr,
    pub port: u16,
}

/// Validate the configured host and pair it with the port. A host that
/// is neither a dotted-quad address nor a bracketed IPv6 address is
/// rejected before any listener is touched.
pub fn bind_addr(cfg: &AppConfig) -> (r: Result<BindAddr, ServerError>)
    ensures
        r is Ok <==> valid_host_literal(encode_utf8(cfg.host@)),
        r is Err ==> r->Err_0 is AddressParse,
        r is Ok ==> host_matches(r->Ok_0.host, encode_utf8(cfg.host@)),
        r is Ok ==> r->Ok_0.port == cfg.port,
{
    match parse_host(cfg.host.as_str()) {
        Some(host) => Ok(BindAddr { host, port: cfg.port }),
        None => Err(ServerError::AddressParse),
    }
}

} // verus!
