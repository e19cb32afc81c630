//! The outbound allow-list: entries of the form `scheme://host:port`,
//! parsed into concrete match rules after their variables are resolved, and
//! evaluated against candidate destinations. With no rules nothing is
//! allowed: the list is closed by default.

use vstd::prelude::*;
use crate::errors::{HostsError, HostParseError, ResolveError};
use crate::ip::{find_char, find_char_at};
use crate::provider::{Provider, all_static};
use crate::resolver::{ProviderResolver, TemplateOutcome, process_parts};
use crate::template::parse_template;
use crate::text::{
    is_letter, is_digit, all_digits, dec_val, lower_char, lower_seq, ci_has_suffix, to_char_vec,
    parse_u16, str_eq, str_eq_ci, str_has_suffix_ci, lower,
};
use vstd::string::StrSliceExecFns;
use vstd::string::StringExecFns;

verus! {

/// The scheme half of a rule: any scheme, or one exact scheme.
pub enum SchemeView {
    AnyScheme,
    ExactScheme(Seq<char>),
}

/// The host half of a rule: any host, any host under a domain, or one
/// exact host.
pub enum HostView {
    AnyHost,
    SuffixHost(Seq<char>),
    ExactHost(Seq<char>),
}

/// The port half of a rule: any port, the scheme's default port (when the
/// entry names none), one port, or a half-open range.
#[derive(PartialEq, Eq, Structural)]
pub enum PortView {
    AnyPort,
    DefaultPort,
    OnePort(u16),
    PortRange(u16, u16),
}

/// One parsed allow-list rule, at the specification level.
pub struct RuleView {
    pub scheme: SchemeView,
    pub host: HostView,
    pub port: PortView,
}

/// The scheme half of a rule, as executable data.
pub enum SchemePattern {
    AnyScheme,
    ExactScheme(String),
}

/// The host half of a rule, as executable data.
pub enum HostPattern {
    AnyHost,
    SuffixHost(String),
    ExactHost(String),
}

/// The port half of a rule, as executable data.
pub enum PortPattern {
    AnyPort,
    DefaultPort,
    OnePort(u16),
    PortRange(u16, u16),
}

/// One parsed allow-list rule: a destination must match all three halves.
pub struct HostRule {
    pub scheme: SchemePattern,
    pub host: HostPattern,
    pub port: PortPattern,
}

impl View for HostRule {
    type V = RuleView;

    open spec fn view(&self) -> RuleView {
        RuleView {
            scheme: match &self.scheme {
                SchemePattern::AnyScheme => SchemeView::AnyScheme,
                SchemePattern::ExactScheme(s) => SchemeView::ExactScheme(s@),
            },
            host: match &self.host {
                HostPattern::AnyHost => HostView::AnyHost,
                HostPattern::SuffixHost(s) => HostView::SuffixHost(s@),
                HostPattern::ExactHost(s) => HostView::ExactHost(s@),
            },
            port: match &self.port {
                PortPattern::AnyPort => PortView::AnyPort,
                PortPattern::DefaultPort => PortView::DefaultPort,
                PortPattern::OnePort(p) => PortView::OnePort(*p),
                PortPattern::PortRange(lo, hi) => PortView::PortRange(*lo, *hi),
            },
        }
    }
}

/// The rules of a parsed configuration.
pub open spec fn rules_view(rs: Seq<HostRule>) -> Seq<RuleView> {
    rs.map_values(|r: HostRule| r@)
}

/// True when `c` may appear in a scheme: lower-case letters, digits, `+`,
/// `-`, `.`.
pub open spec fn scheme_char(c: char) -> bool {
    ('a' <= c && c <= 'z') || is_digit(c) || c == '+' || c == '-' || c == '.'
}

/// True when `c` may appear in a plain host name.
pub open spec fn host_char(c: char) -> bool {
    is_letter(c) || is_digit(c) || c == '-' || c == '.' || c == '_'
}

/// True when `c` may appear in a bracketed host: hexadecimal digits,
/// colons and dots.
pub open spec fn bracket_char(c: char) -> bool {
    is_digit(c) || ('a' <= c && c <= 'f') || ('A' <= c && c <= 'F') || c == ':' || c == '.'
}

/// True when `s[from..to]` is a non-empty run of scheme characters.
pub open spec fn scheme_wf_range(s: Seq<char>, from: int, to: int) -> bool {
    from < to && forall|k: int| from <= k < to ==> scheme_char(#[trigger] s[k])
}

/// True when `s[from..to]` is a non-empty run of host characters.
pub open spec fn host_wf_range(s: Seq<char>, from: int, to: int) -> bool {
    from < to && forall|k: int| from <= k < to ==> host_char(#[trigger] s[k])
}

/// True when `s[from..to]` is a non-empty run of bracket characters.
pub open spec fn bracket_wf_range(s: Seq<char>, from: int, to: int) -> bool {
    from < to && forall|k: int| from <= k < to ==> bracket_char(#[trigger] s[k])
}

/// True when `s[from..to]` is exactly `*`.
pub open spec fn is_star(s: Seq<char>, from: int, to: int) -> bool {
    to == from + 1 && s[from] == '*'
}

/// The first position at or after `from` where `://` occurs, or `s.len()`.
pub open spec fn find_sep(s: Seq<char>, from: int) -> int
    decreases s.len() - from,
    when 0 <= from <= s.len()
{
    if from + 2 >= s.len() {
        s.len() as int
    } else if s[from] == ':' && s[from + 1] == '/' && s[from + 2] == '/' {
        from
    } else {
        find_sep(s, from + 1)
    }
}

pub proof fn lemma_find_sep_range(s: Seq<char>, from: int)
    requires
        0 <= from <= s.len(),
    ensures
        from <= find_sep(s, from) <= s.len(),
        find_sep(s, from) < s.len() ==> find_sep(s, from) + 2 < s.len(),
    decreases s.len() - from,
{
    if from + 2 < s.len() && !(s[from] == ':' && s[from + 1] == '/' && s[from + 2] == '/') {
        lemma_find_sep_range(s, from + 1);
    }
}

/// The first position in `from..to-1` where `..` occurs, or `to`.
pub open spec fn find_dotdot(s: Seq<char>, from: int, to: int) -> int
    decreases to - from,
    when 0 <= from <= to <= s.len()
{
    if from + 1 >= to {
        to
    } else if s[from] == '.' && s[from + 1] == '.' {
        from
    } else {
        find_dotdot(s, from + 1, to)
    }
}

pub proof fn lemma_find_dotdot_range(s: Seq<char>, from: int, to: int)
    requires
        0 <= from <= to <= s.len(),
    ensures
        from <= find_dotdot(s, from, to) <= to,
        find_dotdot(s, from, to) < to ==> find_dotdot(s, from, to) + 1 < to,
    decreases to - from,
{
    if from + 1 < to && !(s[from] == '.' && s[from + 1] == '.') {
        lemma_find_dotdot_range(s, from + 1, to);
    }
}

/// Reads `s[from..to]` as a port count: digits with a value that fits a
/// port number.
pub open spec fn port_num(s: Seq<char>, from: int, to: int) -> Option<u16> {
    if all_digits(s.subrange(from, to)) && dec_val(s.subrange(from, to)) <= 0xffff {
        Some(dec_val(s.subrange(from, to)) as u16)
    } else {
        None
    }
}

/// Parses `s[from..to]` as the port half of an entry: `*`, one number, or
/// a half-open range `lo..hi`.
pub open spec fn parse_port_spec(s: Seq<char>, from: int, to: int) -> Option<PortView> {
    if is_star(s, from, to) {
        Some(PortView::AnyPort)
    } else {
        let dd = find_dotdot(s, from, to);
        if dd == to {
            match port_num(s, from, to) {
                Some(p) => Some(PortView::OnePort(p)),
                None => None,
            }
        } else {
            match (port_num(s, from, dd), port_num(s, dd + 2, to)) {
                (Some(lo), Some(hi)) => Some(PortView::PortRange(lo, hi)),
                _ => None,
            }
        }
    }
}

/// Parses `s[from..to]` as the host half of an entry: `*`, `*.domain`, a
/// plain host, or a bracketed host.
pub open spec fn parse_host_spec(s: Seq<char>, from: int, to: int) -> Option<HostView> {
    if is_star(s, from, to) {
        Some(HostView::AnyHost)
    } else if to >= from + 2 && s[from] == '*' && s[from + 1] == '.' {
        if host_wf_range(s, from + 2, to) {
            Some(HostView::SuffixHost(s.subrange(from + 2, to)))
        } else {
            None
        }
    } else if host_wf_range(s, from, to) {
        Some(HostView::ExactHost(s.subrange(from, to)))
    } else {
        None
    }
}

/// Parses `s[from..]` as `host`, `host:port`, `[host]` or `[host]:port`.
pub open spec fn parse_hostport_spec(s: Seq<char>, from: int) -> Option<(HostView, PortView)> {
    if from >= s.len() {
        None
    } else if s[from] == '[' {
        let rb = find_char(s, ']', from);
        if rb == s.len() || !bracket_wf_range(s, from + 1, rb) {
            None
        } else if rb + 1 == s.len() {
            Some((HostView::ExactHost(s.subrange(from + 1, rb)), PortView::DefaultPort))
        } else if s[rb + 1] == ':' {
            match parse_port_spec(s, rb + 2, s.len() as int) {
                Some(p) => Some((HostView::ExactHost(s.subrange(from + 1, rb)), p)),
                None => None,
            }
        } else {
            None
        }
    } else {
        let c = find_char(s, ':', from);
        let port = if c == s.len() {
            Some(PortView::DefaultPort)
        } else {
            parse_port_spec(s, c + 1, s.len() as int)
        };
        match (parse_host_spec(s, from, c), port) {
            (Some(h), Some(p)) => Some((h, p)),
            _ => None,
        }
    }
}

/// Parses a whole allow-list entry: an optional `scheme://` (`*` or a
/// concrete scheme; omitted means any scheme), then host and port.
pub open spec fn parse_entry_spec(s: Seq<char>) -> Option<RuleView> {
    let sep = find_sep(s, 0);
    if sep == s.len() {
        match parse_hostport_spec(s, 0) {
            Some((h, p)) => Some(RuleView { scheme: SchemeView::AnyScheme, host: h, port: p }),
            None => None,
        }
    } else {
        let scheme = if is_star(s, 0, sep) {
            Some(SchemeView::AnyScheme)
        } else if scheme_wf_range(s, 0, sep) {
            Some(SchemeView::ExactScheme(s.subrange(0, sep)))
        } else {
            None
        };
        match (scheme, parse_hostport_spec(s, sep + 3)) {
            (Some(sc), Some((h, p))) => Some(RuleView { scheme: sc, host: h, port: p }),
            _ => None,
        }
    }
}

/// The well-known default port of a scheme, where there is one.
pub open spec fn default_port(scheme: Seq<char>) -> Option<u16> {
    if scheme == "http"@ || scheme == "ws"@ {
        Some(80u16)
    } else if scheme == "https"@ || scheme == "wss"@ {
        Some(443u16)
    } else {
        None
    }
}

/// True when the rule's scheme half admits `scheme`.
pub open spec fn scheme_matches(p: SchemeView, scheme: Seq<char>) -> bool {
    match p {
        SchemeView::AnyScheme => true,
        SchemeView::ExactScheme(t) => t == scheme,
    }
}

/// True when the rule's host half admits `host`, under ASCII case folding.
/// A suffix rule admits any host that ends with a dot and the domain.
pub open spec fn host_matches(p: HostView, host: Seq<char>) -> bool {
    match p {
        HostView::AnyHost => true,
        HostView::ExactHost(t) => lower_seq(t) == lower_seq(host),
        HostView::SuffixHost(d) => ci_has_suffix(host, d) && host.len() > d.len() && lower_char(
            host[host.len() - d.len() - 1],
        ) == '.',
    }
}

/// The port a destination effectively uses: the one given, or else the
/// scheme's well-known default.
pub open spec fn effective_port(port: Option<u16>, scheme: Seq<char>) -> Option<u16> {
    match port {
        Some(p) => Some(p),
        None => default_port(scheme),
    }
}

/// True when the rule's port half admits the destination's effective port.
/// A rule that named no port admits exactly the scheme's default.
pub open spec fn port_matches(p: PortView, port: Option<u16>, scheme: Seq<char>) -> bool {
    let eff = effective_port(port, scheme);
    match p {
        PortView::AnyPort => true,
        PortView::DefaultPort => eff == default_port(scheme) && eff is Some,
        PortView::OnePort(n) => eff == Some(n),
        PortView::PortRange(lo, hi) => eff matches Some(q) && lo <= q < hi,
    }
}

/// True when one rule admits the destination in all three halves.
pub open spec fn rule_matches(r: RuleView, scheme: Seq<char>, host: Seq<char>, port: Option<u16>) -> bool {
    scheme_matches(r.scheme, scheme) && host_matches(r.host, host) && port_matches(
        r.port,
        port,
        scheme,
    )
}

/// True when some rule admits the destination. With no rules this is
/// false: nothing is allowed.
pub open spec fn allowed(
    rules: Seq<RuleView>,
    scheme: Seq<char>,
    host: Seq<char>,
    port: Option<u16>,
) -> bool {
    exists|i: int| 0 <= i < rules.len() && rule_matches(#[trigger] rules[i], scheme, host, port)
}

/// An empty allow-list denies every destination.
pub proof fn lemma_empty_denies_all(scheme: Seq<char>, host: Seq<char>, port: Option<u16>)
    ensures
        !allowed(Seq::<RuleView>::empty(), scheme, host, port),
{
}

/// Checks that `chars[from..to]` holds only characters accepted by `kind`:
/// scheme characters, host characters, or bracket characters.
pub(crate) fn range_all(chars: &Vec<char>, from: usize, to: usize, kind: u8) -> (r: bool)
    requires
        from <= to <= chars@.len(),
        kind == 0 || kind == 1 || kind == 2,
    ensures
        kind == 0 ==> r == forall|k: int| from <= k < to ==> scheme_char(#[trigger] chars@[k]),
        kind == 1 ==> r == forall|k: int| from <= k < to ==> host_char(#[trigger] chars@[k]),
        kind == 2 ==> r == forall|k: int| from <= k < to ==> bracket_char(#[trigger] chars@[k]),
{
    let mut i: usize = from;
    while i < to
        invariant
            from <= i <= to <= chars@.len(),
            kind == 0 ==> forall|k: int| from <= k < i ==> scheme_char(#[trigger] chars@[k]),
            kind == 1 ==> forall|k: int| from <= k < i ==> host_char(#[trigger] chars@[k]),
            kind == 2 ==> forall|k: int| from <= k < i ==> bracket_char(#[trigger] chars@[k]),
        decreases to - i,
    {
        let c = chars[i];
        let ok = if kind == 0 {
            ('a' <= c && c <= 'z') || ('0' <= c && c <= '9') || c == '+' || c == '-' || c == '.'
        } else if kind == 1 {
            ('a' <= c && c <= 'z') || ('A' <= c && c <= 'Z') || ('0' <= c && c <= '9') || c == '-'
                || c == '.' || c == '_'
        } else {
            ('0' <= c && c <= '9') || ('a' <= c && c <= 'f') || ('A' <= c && c <= 'F') || c == ':'
                || c == '.'
        };
        if !ok {
            return false;
        }
        i += 1;
    }
    true
}

/// Parses the port text `chars[from..to]`, matching [`parse_port_spec`].
fn parse_port(chars: &Vec<char>, from: usize, to: usize) -> (r: Option<PortPattern>)
    requires
        from <= to <= chars@.len(),
    ensures
        match r {
            Some(p) => parse_port_spec(chars@, from as int, to as int) == Some(
                port_pattern_view(p),
            ),
            None => parse_port_spec(chars@, from as int, to as int) is None,
        },
{
    if to - from == 1 && chars[from] == '*' {
        return Some(PortPattern::AnyPort);
    }
    let dd = find_dotdot_at(chars, from, to);
    if dd == to {
        match parse_u16(chars, from, to) {
            Some(p) => Some(PortPattern::OnePort(p)),
            None => None,
        }
    } else {
        proof {
            lemma_find_dotdot_range(chars@, from as int, to as int);
        }
        match (parse_u16(chars, from, dd), parse_u16(chars, dd + 2, to)) {
            (Some(lo), Some(hi)) => Some(PortPattern::PortRange(lo, hi)),
            _ => None,
        }
    }
}

/// The view of a parsed port pattern.
pub open spec fn port_pattern_view(p: PortPattern) -> PortView {
    match p {
        PortPattern::AnyPort => PortView::AnyPort,
        PortPattern::DefaultPort => PortView::DefaultPort,
        PortPattern::OnePort(n) => PortView::OnePort(n),
        PortPattern::PortRange(lo, hi) => PortView::PortRange(lo, hi),
    }
}

/// Executable search for [`find_sep`].
pub(crate) fn find_sep_at(chars: &Vec<char>, from: usize) -> (r: usize)
    requires
        from <= chars@.len(),
    ensures
        r == find_sep(chars@, from as int),
        from <= r <= chars@.len(),
{
    let n = chars.len();
    let mut i: usize = from;
    while n - i > 2
        invariant
            from <= i <= n == chars@.len(),
            find_sep(chars@, from as int) == find_sep(chars@, i as int),
        decreases n - i,
    {
        if chars[i] == ':' && chars[i + 1] == '/' && chars[i + 2] == '/' {
            return i;
        }
        i += 1;
    }
    proof {
        lemma_find_sep_range(chars@, i as int);
    }
    n
}

/// Parses the host text `chars[from..to]`, matching [`parse_host_spec`].
fn parse_host(s: &str, chars: &Vec<char>, from: usize, to: usize) -> (r: Option<HostPattern>)
    requires
        chars@ == s@,
        from <= to <= chars@.len(),
    ensures
        match r {
            Some(h) => parse_host_spec(chars@, from as int, to as int) == Some(h_view(h)),
            None => parse_host_spec(chars@, from as int, to as int) is None,
        },
{
    if to - from == 1 && chars[from] == '*' {
        return Some(HostPattern::AnyHost);
    }
    if to - from >= 2 && chars[from] == '*' && chars[from + 1] == '.' {
        if to > from + 2 && range_all(chars, from + 2, to, 1) {
            return Some(HostPattern::SuffixHost(String::from_str(s.substring_char(from + 2, to))));
        }
        return None;
    }
    if to > from && range_all(chars, from, to, 1) {
        return Some(HostPattern::ExactHost(String::from_str(s.substring_char(from, to))));
    }
    None
}

/// The view of a parsed host pattern.
pub open spec fn h_view(h: HostPattern) -> HostView {
    match h {
        HostPattern::AnyHost => HostView::AnyHost,
        HostPattern::SuffixHost(s) => HostView::SuffixHost(s@),
        HostPattern::ExactHost(s) => HostView::ExactHost(s@),
    }
}

/// Parses `chars[from..]` as host and port, matching
/// [`parse_hostport_spec`].
fn parse_hostport(s: &str, chars: &Vec<char>, from: usize) -> (r: Option<(HostPattern, PortPattern)>)
    requires
        chars@ == s@,
        from <= chars@.len(),
    ensures
        match r {
            Some(hp) => parse_hostport_spec(chars@, from as int) == Some(
                (h_view(hp.0), port_pattern_view(hp.1)),
            ),
            None => parse_hostport_spec(chars@, from as int) is None,
        },
{
    let n = chars.len();
    if from >= n {
        return None;
    }
    if chars[from] == '[' {
        let rb = find_char_at(chars, ']', from);
        if rb == n {
            return None;
        }
        if !(rb > from + 1 && range_all(chars, from + 1, rb, 2)) {
            return None;
        }
        let host = HostPattern::ExactHost(String::from_str(s.substring_char(from + 1, rb)));
        if rb + 1 == n {
            return Some((host, PortPattern::DefaultPort));
        }
        if chars[rb + 1] == ':' {
            match parse_port(chars, rb + 2, n) {
                Some(p) => {
                    return Some((host, p));
                },
                None => {
                    return None;
                },
            }
        }
        return None;
    }
    let c = find_char_at(chars, ':', from);
    let port = if c == n {
        Some(PortPattern::DefaultPort)
    } else {
        parse_port(chars, c + 1, n)
    };
    match (parse_host(s, chars, from, c), port) {
        (Some(h), Some(p)) => Some((h, p)),
        _ => None,
    }
}

/// Parses one allow-list entry, matching [`parse_entry_spec`].
pub fn parse_entry(s: &str) -> (r: Option<HostRule>)
    ensures
        match r {
            Some(rule) => parse_entry_spec(s@) == Some(rule@),
            None => parse_entry_spec(s@) is None,
        },
{
    let chars = to_char_vec(s);
    let n = chars.len();
    let sep = find_sep_at(&chars, 0);
    if sep == n {
        match parse_hostport(s, &chars, 0) {
            Some((h, p)) => Some(HostRule { scheme: SchemePattern::AnyScheme, host: h, port: p }),
            None => None,
        }
    } else {
        proof {
            lemma_find_sep_range(chars@, 0);
        }
        let scheme = if sep == 1 && chars[0] == '*' {
            Some(SchemePattern::AnyScheme)
        } else if sep > 0 && range_all(&chars, 0, sep, 0) {
            Some(SchemePattern::ExactScheme(String::from_str(s.substring_char(0, sep))))
        } else {
            None
        };
        match (scheme, parse_hostport(s, &chars, sep + 3)) {
            (Some(sc), Some((h, p))) => Some(HostRule { scheme: sc, host: h, port: p }),
            _ => None,
        }
    }
}

/// The well-known default port of a scheme, as executable code.
pub fn scheme_default_port(scheme: &str) -> (r: Option<u16>)
    ensures
        r == default_port(scheme@),
{
    if str_eq(scheme, "http") || str_eq(scheme, "ws") {
        Some(80)
    } else if str_eq(scheme, "https") || str_eq(scheme, "wss") {
        Some(443)
    } else {
        None
    }
}

/// Decides whether one rule admits the destination.
fn rule_admits(rule: &HostRule, scheme: &str, host: &str, port: Option<u16>) -> (r: bool)
    ensures
        r == rule_matches(rule@, scheme@, host@, port),
{
    let scheme_ok = match &rule.scheme {
        SchemePattern::AnyScheme => true,
        SchemePattern::ExactScheme(t) => str_eq(t.as_str(), scheme),
    };
    if !scheme_ok {
        return false;
    }
    let host_ok = match &rule.host {
        HostPattern::AnyHost => true,
        HostPattern::ExactHost(t) => str_eq_ci(t.as_str(), host),
        HostPattern::SuffixHost(d) => {
            if !str_has_suffix_ci(host, d.as_str()) {
                false
            } else {
                let hl = host.unicode_len();
                let dl = d.unicode_len();
                hl > dl && lower(host.get_char(hl - dl - 1)) == '.'
            }
        },
    };
    if !host_ok {
        return false;
    }
    let eff: Option<u16> = match port {
        Some(p) => Some(p),
        None => scheme_default_port(scheme),
    };
    match &rule.port {
        PortPattern::AnyPort => true,
        PortPattern::DefaultPort => {
            match (eff, scheme_default_port(scheme)) {
                (Some(a), Some(b)) => a == b,
                _ => false,
            }
        },
        PortPattern::OnePort(n) => {
            match eff {
                Some(q) => q == *n,
                None => false,
            }
        },
        PortPattern::PortRange(lo, hi) => {
            match eff {
                Some(q) => *lo <= q && q < *hi,
                None => false,
            }
        },
    }
}

/// The rule an entry yields once its variables are resolved against the
/// providers' answer tables: the template is parsed, processed, and the
/// result read as an entry. `None` where any of the three steps fails.
pub open spec fn entry_rule<P: Provider>(
    decls: Seq<(crate::key::Key, crate::resolver::Variable)>,
    ps: Seq<P>,
    s: Seq<char>,
) -> Option<RuleView> {
    match parse_template(s, 0) {
        None => None,
        Some(parts) => match process_parts(decls, ps, parts) {
            TemplateOutcome::Done(t) => parse_entry_spec(t),
            _ => None,
        },
    }
}

/// Everything the outcome of parsing an entry list owes. Success carries
/// exactly one rule per entry, pinned to [`entry_rule`] where every
/// provider is static; a parse failure names a failing entry; a resolution
/// failure is a failing entry or a provider's own failure, and the latter
/// takes a provider to fail. Success is owed outright whenever no provider
/// is ever consulted: an empty entry list, or an empty provider chain
/// under which every entry yields a rule.
pub open spec fn parse_outcome<P: Provider>(
    decls: Seq<(crate::key::Key, crate::resolver::Variable)>,
    ps: Seq<P>,
    entries: Seq<String>,
    r: Result<AllowedHostsConfig, HostsError>,
) -> bool {
    &&& match r {
        Ok(cfg) => cfg.rules@.len() == entries.len() && (all_static(ps) ==> forall|i: int|
            0 <= i < entries.len() ==> entry_rule(decls, ps, (#[trigger] entries[i])@) == Some(
                rules_view(cfg.rules@)[i],
            )),
        Err(HostsError::Parse(_)) => all_static(ps) ==> exists|i: int|
            0 <= i < entries.len() && (parse_template((#[trigger] entries[i])@, 0) matches Some(
                parts,
            ) && process_parts(decls, ps, parts) matches TemplateOutcome::Done(t)
                && parse_entry_spec(t) is None),
        Err(HostsError::Resolve(e)) => (all_static(ps) ==> ((exists|i: int|
            0 <= i < entries.len() && entry_rule(decls, ps, (#[trigger] entries[i])@) is None)
            || e matches ResolveError::ProviderFailed(_))) && (e matches ResolveError::ProviderFailed(_)
            ==> ps.len() > 0),
    }
    &&& entries.len() == 0 ==> r is Ok
    &&& (ps.len() == 0 && (forall|i: int|
        0 <= i < entries.len() ==> entry_rule(decls, ps, (#[trigger] entries[i])@) is Some))
        ==> r is Ok
}

/// An ordered set of parsed allow-list rules, built once from a fully
/// variable-resolved entry list and immutable after construction.
pub struct AllowedHostsConfig {
    pub rules: Vec<HostRule>,
}

impl AllowedHostsConfig {
    /// Resolves each entry's variables through the resolver, parses it,
    /// and collects the rules. A single malformed entry fails the whole
    /// parse: allow-lists are never partially applied.
    pub fn parse<P: Provider>(entries: &Vec<String>, resolver: &ProviderResolver<P>) -> (r: Result<
        AllowedHostsConfig,
        HostsError,
    >)
        ensures
            parse_outcome(resolver.decls@, resolver.providers@, entries@, r),
    {
        let ghost decls = resolver.decls@;
        let ghost ps = resolver.providers@;
        let mut rules: Vec<HostRule> = Vec::new();
        let mut i: usize = 0;
        while i < entries.len()
            invariant
                i <= entries@.len(),
                decls == resolver.decls@,
                ps == resolver.providers@,
                rules@.len() == i,
                all_static(ps) ==> forall|k: int|
                    0 <= k < i ==> entry_rule(decls, ps, (#[trigger] entries@[k])@) == Some(
                        rules_view(rules@)[k],
                    ),
            decreases entries@.len() - i,
        {
            let entry = &entries[i];
            let resolved = match resolver.resolve_template(entry.as_str()) {
                Ok(t) => t,
                Err(e) => {
                    proof {
                        if ps.len() == 0 && (forall|k: int|
                            0 <= k < entries@.len() ==> entry_rule(
                                decls,
                                ps,
                                (#[trigger] entries@[k])@,
                            ) is Some) {
                            assert(all_static(ps));
                            assert(entry_rule(decls, ps, entries@[i as int]@) is Some);
                            assert(false);
                        }
                    }
                    return Err(HostsError::Resolve(e));
                },
            };
            match parse_entry(resolved.as_str()) {
                Some(rule) => {
                    let ghost rules0 = rules@;
                    rules.push(rule);
                    proof {
                        assert(rules_view(rules@) =~= rules_view(rules0).push(rule@));
                        assert forall|k: int|
                            all_static(ps) && 0 <= k < i + 1 implies entry_rule(
                            decls,
                            ps,
                            (#[trigger] entries@[k])@,
                        ) == Some(rules_view(rules@)[k]) by {
                            if k < i {
                                assert(rules_view(rules@)[k] == rules_view(rules0)[k]);
                            }
                        }
                    }
                },
                None => {
                    proof {
                        if ps.len() == 0 && (forall|k: int|
                            0 <= k < entries@.len() ==> entry_rule(
                                decls,
                                ps,
                                (#[trigger] entries@[k])@,
                            ) is Some) {
                            assert(all_static(ps));
                            assert(entry_rule(decls, ps, entries@[i as int]@) is Some);
                            assert(false);
                        }
                        if all_static(ps) {
                            assert(parse_template(entries@[i as int]@, 0) matches Some(parts)
                                && process_parts(decls, ps, parts) matches TemplateOutcome::Done(t)
                                && parse_entry_spec(t) is None);
                        }
                    }
                    return Err(
                        HostsError::Parse(
                            HostParseError::InvalidEntry(
                                String::from_str(entry.as_str()),
                                String::from_str("not of the form scheme://host:port"),
                            ),
                        ),
                    );
                },
            }
            i += 1;
        }
        Ok(AllowedHostsConfig { rules })
    }

    /// True when some rule admits the destination: case-insensitive host
    /// comparison, exact scheme match, and the port within the rule's
    /// range. With zero rules every destination is denied.
    pub fn is_allowed(&self, host: &str, port: Option<u16>, scheme: &str) -> (r: bool)
        ensures
            r == allowed(rules_view(self.rules@), scheme@, host@, port),
    {
        let mut i: usize = 0;
        while i < self.rules.len()
            invariant
                i <= self.rules@.len(),
                forall|k: int|
                    0 <= k < i ==> !rule_matches(
                        #[trigger] rules_view(self.rules@)[k],
                        scheme@,
                        host@,
                        port,
                    ),
            decreases self.rules@.len() - i,
        {
            if rule_admits(&self.rules[i], scheme, host, port) {
                proof {
                    assert(rules_view(self.rules@)[i as int] == self.rules@[i as int]@);
                }
                return true;
            }
            i += 1;
        }
        false
    }
}

/// Executable search for [`find_dotdot`].
fn find_dotdot_at(chars: &Vec<char>, from: usize, to: usize) -> (r: usize)
    requires
        from <= to <= chars@.len(),
    ensures
        r == find_dotdot(chars@, from as int, to as int),
        from <= r <= to,
{
    let mut i: usize = from;
    while to - i > 1
        invariant
            from <= i <= to <= chars@.len(),
            find_dotdot(chars@, from as int, to as int) == find_dotdot(
                chars@,
                i as int,
                to as int,
            ),
        decreases to - i,
    {
        if chars[i] == '.' && chars[i + 1] == '.' {
            return i;
        }
        i += 1;
    }
    proof {
        lemma_find_dotdot_range(chars@, i as int, to as int);
    }
    to
}

} // verus!
