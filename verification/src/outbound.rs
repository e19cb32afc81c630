//! The per-instance outbound check: a lazily computed allow-list shared by
//! every connection attempt of one component instance, an optional
//! disallowed-host notification hook, and the socket-address decision.
//!
//! The allow-list is computed at most once per instance: success and
//! failure are both cached, and a failing computation is a permanent
//! failure for that instance. Sharing one instance across concurrent
//! tasks is the embedding's concern; the contracts here pin down that a
//! computed outcome is never recomputed or changed.

use vstd::prelude::*;
use crate::allowed::{
    AllowedHostsConfig, allowed, rules_view, parse_outcome, find_sep, lemma_find_sep_range,
    scheme_wf_range, host_wf_range, bracket_wf_range, port_num, range_all, find_sep_at,
};
use crate::errors::{HostsError, ResolveError};
use crate::ip::{
    IpAddress, BlockedNetworks, blocked_spec, addr_text, format_addr, find_char, find_char_at,
};
use crate::provider::{Provider, all_static};
use crate::resolver::ProviderResolver;
use crate::text::{to_char_vec, parse_u16};
use vstd::string::StrSliceExecFns;
use vstd::string::StringExecFns;

verus! {

/// Called once for each denied connection attempt, with the scheme and the
/// destination that were refused. A diagnostic hook: its behaviour never
/// changes the check's own result.
pub trait DisallowedHostHandler {
    /// Reports one denied attempt.
    fn handle_disallowed_host(&self, scheme: &str, authority: &str);
}

/// What a socket address is about to be used for.
#[derive(Clone, Copy, Debug, PartialEq, Eq, Structural)]
pub enum SocketAddrUse {
    TcpBind,
    TcpConnect,
    UdpBind,
    UdpConnect,
    UdpOutgoingDatagram,
}

/// The scheme under which a socket use is checked; `None` for binds, which
/// are always denied outright.
pub open spec fn use_scheme(u: SocketAddrUse) -> Option<Seq<char>> {
    match u {
        SocketAddrUse::TcpBind => None,
        SocketAddrUse::UdpBind => None,
        SocketAddrUse::TcpConnect => Some("tcp"@),
        SocketAddrUse::UdpConnect => Some("udp"@),
        SocketAddrUse::UdpOutgoingDatagram => Some("udp"@),
    }
}

/// Parses `s[from..]` as a destination authority: `host`, `host:port`,
/// `[host]` or `[host]:port`, with the host text handed back without
/// brackets.
pub open spec fn parse_dest_from(s: Seq<char>, from: int) -> Option<(Seq<char>, Option<u16>)> {
    if from >= s.len() {
        None
    } else if s[from] == '[' {
        let rb = find_char(s, ']', from);
        if rb == s.len() || !bracket_wf_range(s, from + 1, rb) {
            None
        } else if rb + 1 == s.len() {
            Some((s.subrange(from + 1, rb), None))
        } else if s[rb + 1] == ':' {
            match port_num(s, rb + 2, s.len() as int) {
                Some(p) => Some((s.subrange(from + 1, rb), Some(p))),
                None => None,
            }
        } else {
            None
        }
    } else {
        let c = find_char(s, ':', from);
        if !host_wf_range(s, from, c) {
            None
        } else if c == s.len() {
            Some((s.subrange(from, c), None))
        } else {
            match port_num(s, c + 1, s.len() as int) {
                Some(p) => Some((s.subrange(from, c), Some(p))),
                None => None,
            }
        }
    }
}

/// Parses a destination: an optional `scheme://`, then the authority. The
/// scheme given by the caller applies when the text names none.
pub open spec fn parse_url_spec(s: Seq<char>, given_scheme: Seq<char>) -> Option<
    (Seq<char>, Seq<char>, Option<u16>),
> {
    let sep = find_sep(s, 0);
    if sep == s.len() {
        match parse_dest_from(s, 0) {
            Some((h, p)) => Some((given_scheme, h, p)),
            None => None,
        }
    } else if scheme_wf_range(s, 0, sep) {
        match parse_dest_from(s, sep + 3) {
            Some((h, p)) => Some((s.subrange(0, sep), h, p)),
            None => None,
        }
    } else {
        None
    }
}

/// Executable parse of the authority part, matching [`parse_dest_from`].
fn parse_dest(s: &str, chars: &Vec<char>, from: usize) -> (r: Option<(String, Option<u16>)>)
    requires
        chars@ == s@,
        from <= chars@.len(),
    ensures
        match r {
            Some(hp) => parse_dest_from(chars@, from as int) == Some((hp.0@, hp.1)),
            None => parse_dest_from(chars@, from as int) is None,
        },
{
    let n = chars.len();
    if from >= n {
        return None;
    }
    if chars[from] == '[' {
        let rb = find_char_at(chars, ']', from);
        if rb == n {
            return None;
        }
        if !(rb > from + 1 && range_all(chars, from + 1, rb, 2)) {
            return None;
        }
        let host = String::from_str(s.substring_char(from + 1, rb));
        if rb + 1 == n {
            return Some((host, None));
        }
        if chars[rb + 1] == ':' {
            match parse_u16(chars, rb + 2, n) {
                Some(p) => {
                    return Some((host, Some(p)));
                },
                None => {
                    return None;
                },
            }
        }
        return None;
    }
    let c = find_char_at(chars, ':', from);
    if !(c > from && range_all(chars, from, c, 1)) {
        return None;
    }
    let host = String::from_str(s.substring_char(from, c));
    if c == n {
        return Some((host, None));
    }
    match parse_u16(chars, c + 1, n) {
        Some(p) => Some((host, Some(p))),
        None => None,
    }
}

/// Executable parse of a destination, matching [`parse_url_spec`].
pub fn parse_url(s: &str, given_scheme: &str) -> (r: Option<(String, String, Option<u16>)>)
    ensures
        match r {
            Some(t) => parse_url_spec(s@, given_scheme@) == Some((t.0@, t.1@, t.2)),
            None => parse_url_spec(s@, given_scheme@) is None,
        },
{
    let chars = to_char_vec(s);
    let n = chars.len();
    let sep = find_sep_at(&chars, 0);
    if sep == n {
        match parse_dest(s, &chars, 0) {
            Some((h, p)) => Some((String::from_str(given_scheme), h, p)),
            None => None,
        }
    } else {
        proof {
            lemma_find_sep_range(chars@, 0);
        }
        if !(sep > 0 && range_all(&chars, 0, sep, 0)) {
            return None;
        }
        let scheme = String::from_str(s.substring_char(0, sep));
        match parse_dest(s, &chars, sep + 3) {
            Some((h, p)) => Some((scheme, h, p)),
            None => None,
        }
    }
}

/// The per-instance façade: the raw entry list, the at-most-once cache of
/// its parse, and the optional denial hook.
pub struct OutboundAllowedHosts<H: DisallowedHostHandler> {
    pub entries: Vec<String>,
    pub cache: Option<Result<AllowedHostsConfig, HostsError>>,
    pub handler: Option<H>,
}

impl<H: DisallowedHostHandler> OutboundAllowedHosts<H> {
    /// A fresh instance: nothing computed yet.
    pub fn new(entries: Vec<String>, handler: Option<H>) -> (r: Self)
        ensures
            r.entries@ == entries@,
            r.cache is None,
            r.handler == handler,
    {
        OutboundAllowedHosts { entries, cache: None, handler }
    }

    /// Computes the allow-list if no outcome is cached yet; an outcome
    /// already cached, success or failure, is kept as it is and nothing is
    /// recomputed.
    pub fn ensure_parsed<P: Provider>(&mut self, resolver: &ProviderResolver<P>)
        ensures
            final(self).entries@ == old(self).entries@,
            final(self).handler == old(self).handler,
            old(self).cache is Some ==> *final(self) == *old(self),
            final(self).cache is Some,
            old(self).cache is None ==> (final(self).cache matches Some(o) && parse_outcome(
                resolver.decls@,
                resolver.providers@,
                old(self).entries@,
                o,
            )),
    {
        if self.cache.is_none() {
            let outcome = AllowedHostsConfig::parse(&self.entries, resolver);
            self.cache = Some(outcome);
        }
    }

    /// Checks one destination against the instance's allow-list, computing
    /// and caching the list on first use. A cached failure is returned to
    /// every caller; nothing is retried. On a denial the registered hook,
    /// if any, is told.
    pub fn check_url<P: Provider>(
        &mut self,
        resolver: &ProviderResolver<P>,
        url: &str,
        scheme: &str,
    ) -> (r: Result<bool, HostsError>)
        ensures
            final(self).entries@ == old(self).entries@,
            final(self).handler == old(self).handler,
            old(self).cache is Some ==> final(self).cache == old(self).cache,
            final(self).cache is Some,
            old(self).cache is None ==> (final(self).cache matches Some(o) && parse_outcome(
                resolver.decls@,
                resolver.providers@,
                old(self).entries@,
                o,
            )),
            (r matches Ok(b) ==> final(self).cache matches Some(Ok(cfg)) && b == (parse_url_spec(
                url@,
                scheme@,
            ) matches Some(t) && allowed(rules_view(cfg.rules@), t.0, t.1, t.2))),
            (r matches Err(e) ==> final(self).cache matches Some(Err(cached)) && e@ == cached@),
            (final(self).cache matches Some(Err(_)) ==> r is Err),
    {
        self.ensure_parsed(resolver);
        let denied;
        let outcome: Result<bool, HostsError> = match &self.cache {
            Some(Ok(cfg)) => {
                match parse_url(url, scheme) {
                    Some((sc, host, port)) => Ok(cfg.is_allowed(host.as_str(), port, sc.as_str())),
                    None => Ok(false),
                }
            },
            Some(Err(e)) => Err(clone_hosts_error(e)),
            None => {
                proof {
                    assert(false);
                }
                Ok(false)
            },
        };
        match &outcome {
            Ok(false) => {
                denied = true;
            },
            _ => {
                denied = false;
            },
        }
        if denied {
            match &self.handler {
                Some(h) => h.handle_disallowed_host(scheme, url),
                None => (),
            }
        }
        outcome
    }

    /// The socket-address decision consulted by the host on every
    /// outbound socket operation. Binds are denied outright; connects are
    /// checked under `tcp`, datagram uses under `udp`. The address must
    /// pass the allow-list and must not be blocked; an error while
    /// computing the allow-list denies, it never propagates.
    ///
    /// The address is matched against the rules as text: a dotted quad,
    /// or the uncompressed colon-separated form for a version-6 address,
    /// which is also the form a bracketed rule must use to name one.
    /// Beware: hosts that print version-6 addresses with `::` compression
    /// match a rule written that way; here such a rule must be spelled out
    /// in full (`[fe80:0:0:0:0:0:0:1]`, never `[fe80::1]`) or it matches
    /// nothing.
    pub fn check_socket_addr<P: Provider>(
        &mut self,
        resolver: &ProviderResolver<P>,
        blocked: &BlockedNetworks,
        addr: &IpAddress,
        port: u16,
        addr_use: SocketAddrUse,
    ) -> (r: bool)
        requires
            blocked.wf(),
        ensures
            final(self).entries@ == old(self).entries@,
            final(self).handler == old(self).handler,
            old(self).cache is Some ==> final(self).cache == old(self).cache,
            use_scheme(addr_use) is None ==> !r && *final(self) == *old(self),
            use_scheme(addr_use) is Some && old(self).cache is None ==> (final(self).cache
                matches Some(o) && parse_outcome(
                resolver.decls@,
                resolver.providers@,
                old(self).entries@,
                o,
            )),
            (use_scheme(addr_use) matches Some(sc) ==> r == (final(self).cache matches Some(Ok(cfg))
                && allowed(rules_view(cfg.rules@), sc, addr_text(*addr), Some(port))
                && !blocked_spec(blocked.networks@, blocked.block_private, *addr))),
    {
        let scheme: &str = match addr_use {
            SocketAddrUse::TcpBind => {
                return false;
            },
            SocketAddrUse::UdpBind => {
                return false;
            },
            SocketAddrUse::TcpConnect => "tcp",
            SocketAddrUse::UdpConnect => "udp",
            SocketAddrUse::UdpOutgoingDatagram => "udp",
        };
        let host = format_addr(addr);
        self.ensure_parsed(resolver);
        let ok: bool = match &self.cache {
            Some(Ok(cfg)) => cfg.is_allowed(host.as_str(), Some(port), scheme),
            Some(Err(_)) => false,
            None => {
                proof {
                    assert(false);
                }
                false
            },
        };
        if !ok {
            match &self.handler {
                Some(h) => h.handle_disallowed_host(scheme, host.as_str()),
                None => (),
            }
            return false;
        }
        !blocked.is_blocked(addr)
    }
}

/// A copy of a cached failure, handed to a later caller: the very same
/// error, variant and text alike.
fn clone_hosts_error(e: &HostsError) -> (r: HostsError)
    ensures
        r@ == e@,
{
    match e {
        HostsError::Resolve(re) => HostsError::Resolve(
            match re {
                ResolveError::Undeclared(s) => ResolveError::Undeclared(
                    String::from_str(s.as_str()),
                ),
                ResolveError::Undefined(s) => ResolveError::Undefined(String::from_str(s.as_str())),
                ResolveError::ProviderFailed(s) => ResolveError::ProviderFailed(
                    String::from_str(s.as_str()),
                ),
                ResolveError::InvalidTemplate(s) => ResolveError::InvalidTemplate(
                    String::from_str(s.as_str()),
                ),
            },
        ),
        HostsError::Parse(crate::errors::HostParseError::InvalidEntry(a, b)) => HostsError::Parse(
            crate::errors::HostParseError::InvalidEntry(
                String::from_str(a.as_str()),
                String::from_str(b.as_str()),
            ),
        ),
    }
}

} // verus!
