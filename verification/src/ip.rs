//! IP addresses, network ranges, and the block-list checked against every
//! resolved socket address.

use vstd::prelude::*;
use crate::errors::ConfigError;
use crate::text::{all_digits, dec_val, to_char_vec, parse_u16};
use vstd::string::StrSliceExecFns;
use vstd::string::StringExecFns;

verus! {

/// An IP address as its raw bits: 32 for version 4, 128 for version 6.
#[derive(Clone, Copy, Debug, PartialEq, Eq, Structural)]
pub enum IpAddress {
    V4(u32),
    V6(u128),
}

/// The bits of a version-4 address given as four octets.
pub open spec fn v4_bits(a: u8, b: u8, c: u8, d: u8) -> u32 {
    (a as u32 * 0x1000000 + b as u32 * 0x10000 + c as u32 * 0x100 + d as u32) as u32
}

impl IpAddress {
    /// A version-4 address from its four octets.
    pub fn v4(a: u8, b: u8, c: u8, d: u8) -> (r: IpAddress)
        ensures
            r == IpAddress::V4(v4_bits(a, b, c, d)),
    {
        IpAddress::V4((a as u32) * 0x1000000 + (b as u32) * 0x10000 + (c as u32) * 0x100 + (
        d as u32))
    }

    /// A version-6 address from its 128 bits.
    pub fn v6(bits: u128) -> (r: IpAddress)
        ensures
            r == IpAddress::V6(bits),
    {
        IpAddress::V6(bits)
    }
}

/// A version-4 address carried inside a version-6 mapping (`::ffff:0:0/96`)
/// is treated as the version-4 address it names; everything else stands as
/// it is.
pub open spec fn canonical(addr: IpAddress) -> IpAddress {
    match addr {
        IpAddress::V6(b) => if b >> 32 == 0xffff {
            IpAddress::V4((b & 0xffffffff) as u32)
        } else {
            addr
        },
        _ => addr,
    }
}

/// Executable canonicalization, matching [`canonical`].
pub fn canonicalize(addr: &IpAddress) -> (r: IpAddress)
    ensures
        r == canonical(*addr),
{
    match addr {
        IpAddress::V6(b) => if *b >> 32 == 0xffff {
            IpAddress::V4((*b & 0xffffffff) as u32)
        } else {
            *addr
        },
        _ => *addr,
    }
}

/// True when the version-4 address bits fall in a standard private,
/// loopback, link-local or unspecified range.
pub open spec fn is_private_v4(a: u32) -> bool {
    ||| a >> 24 == 10  // 10.0.0.0/8
    ||| a >> 20 == 0xac1  // 172.16.0.0/12
    ||| a >> 16 == 0xc0a8  // 192.168.0.0/16
    ||| a >> 24 == 127  // 127.0.0.0/8
    ||| a >> 16 == 0xa9fe  // 169.254.0.0/16
    ||| a == 0  // 0.0.0.0

}

/// True when the version-6 address bits fall in a standard unique-local,
/// link-local, loopback or unspecified range.
pub open spec fn is_private_v6(b: u128) -> bool {
    ||| b == 1  // ::1
    ||| b == 0  // ::
    ||| b >> 121 == 0x7e  // fc00::/7
    ||| b >> 118 == 0x3fa  // fe80::/10

}

/// True when the address, after canonicalization, is in a standard
/// private, loopback, link-local or unspecified range of its family.
pub open spec fn is_private_addr(addr: IpAddress) -> bool {
    match canonical(addr) {
        IpAddress::V4(a) => is_private_v4(a),
        IpAddress::V6(b) => is_private_v6(b),
    }
}

/// Executable test for [`is_private_addr`].
pub fn addr_is_private(addr: &IpAddress) -> (r: bool)
    ensures
        r == is_private_addr(*addr),
{
    match canonicalize(addr) {
        IpAddress::V4(a) => (a >> 24 == 10) || (a >> 20 == 0xac1) || (a >> 16 == 0xc0a8) || (a >> 24
            == 127) || (a >> 16 == 0xa9fe) || (a == 0),
        IpAddress::V6(b) => (b == 1) || (b == 0) || (b >> 121 == 0x7e) || (b >> 118 == 0x3fa),
    }
}

/// An IP network range: an address and a prefix length.
#[derive(Clone, Copy, Debug, PartialEq, Eq, Structural)]
pub struct IpNet {
    pub addr: IpAddress,
    pub prefix: u8,
}

impl IpNet {
    /// The range's invariant: the prefix length fits its address family.
    pub open spec fn wf(&self) -> bool {
        match self.addr {
            IpAddress::V4(_) => self.prefix <= 32,
            IpAddress::V6(_) => self.prefix <= 128,
        }
    }

    /// Builds a range; rejects a prefix length beyond the family's bits.
    pub fn new(addr: IpAddress, prefix: u8) -> (r: Result<IpNet, ConfigError>)
        ensures
            match r {
                Ok(net) => net.addr == addr && net.prefix == prefix && net.wf(),
                Err(_) => !(IpNet { addr, prefix }).wf(),
            },
    {
        let limit: u8 = match addr {
            IpAddress::V4(_) => 32,
            IpAddress::V6(_) => 128,
        };
        if prefix <= limit {
            Ok(IpNet { addr, prefix })
        } else {
            Err(ConfigError::InvalidNetwork(String::new()))
        }
    }

    /// True when `addr` falls inside the range: the address families agree
    /// and the first `prefix` bits of the addresses are equal.
    pub open spec fn contains_spec(&self, addr: IpAddress) -> bool {
        match (self.addr, addr) {
            (IpAddress::V4(n), IpAddress::V4(a)) => self.prefix == 0 || (self.prefix <= 32 && a
                >> ((32 - self.prefix) as u32) == n >> ((32 - self.prefix) as u32)),
            (IpAddress::V6(n), IpAddress::V6(a)) => self.prefix == 0 || (self.prefix <= 128 && a
                >> ((128 - self.prefix) as u32) == n >> ((128 - self.prefix) as u32)),
            _ => false,
        }
    }

    /// Executable test for [`IpNet::contains_spec`].
    pub fn contains(&self, addr: &IpAddress) -> (r: bool)
        requires
            self.wf(),
        ensures
            r == self.contains_spec(*addr),
    {
        match (&self.addr, addr) {
            (IpAddress::V4(n), IpAddress::V4(a)) => self.prefix == 0 || (*a >> ((32 - self.prefix)
                as u32) == *n >> ((32 - self.prefix) as u32)),
            (IpAddress::V6(n), IpAddress::V6(a)) => self.prefix == 0 || (*a >> ((128 - self.prefix)
                as u32) == *n >> ((128 - self.prefix) as u32)),
            _ => false,
        }
    }

    /// A copy of the range.
    pub fn duplicate(&self) -> (r: IpNet)
        ensures
            r == *self,
    {
        IpNet { addr: self.addr, prefix: self.prefix }
    }
}

/// The first position at or after `from` in `from..to` holding `c`, or `to`.
pub open spec fn find_char(s: Seq<char>, c: char, from: int) -> int
    decreases s.len() - from,
    when 0 <= from <= s.len()
{
    if from >= s.len() {
        s.len() as int
    } else if s[from] == c {
        from
    } else {
        find_char(s, c, from + 1)
    }
}

pub proof fn lemma_find_char_range(s: Seq<char>, c: char, from: int)
    requires
        0 <= from <= s.len(),
    ensures
        from <= find_char(s, c, from) <= s.len(),
        find_char(s, c, from) < s.len() ==> s[find_char(s, c, from)] == c,
        forall|k: int| from <= k < find_char(s, c, from) ==> s[k] != c,
    decreases s.len() - from,
{
    if from < s.len() && s[from] != c {
        lemma_find_char_range(s, c, from + 1);
    }
}

/// Executable search for [`find_char`].
pub fn find_char_at(chars: &Vec<char>, c: char, from: usize) -> (r: usize)
    requires
        from <= chars@.len(),
    ensures
        r == find_char(chars@, c, from as int),
        from <= r <= chars@.len(),
{
    let n = chars.len();
    let mut i: usize = from;
    while i < n
        invariant
            from <= i <= n == chars@.len(),
            find_char(chars@, c, from as int) == find_char(chars@, c, i as int),
        decreases n - i,
    {
        if chars[i] == c {
            return i;
        }
        i += 1;
    }
    i
}

/// Reads `chars[from..to]` as a decimal octet: digits with a value of at
/// most 255.
pub open spec fn octet_at(s: Seq<char>, from: int, to: int) -> Option<u8> {
    if all_digits(s.subrange(from, to)) && dec_val(s.subrange(from, to)) <= 255 {
        Some(dec_val(s.subrange(from, to)) as u8)
    } else {
        None
    }
}

/// The dotted-quad reading of `s`: four octets separated by single dots.
pub open spec fn parse_v4_spec(s: Seq<char>) -> Option<u32> {
    let d1 = find_char(s, '.', 0);
    let d2 = if d1 < s.len() {
        find_char(s, '.', d1 + 1)
    } else {
        s.len() as int
    };
    let d3 = if d2 < s.len() {
        find_char(s, '.', d2 + 1)
    } else {
        s.len() as int
    };
    if d1 == s.len() || d2 == s.len() || d3 == s.len() || find_char(s, '.', d3 + 1) != s.len() {
        None
    } else {
        match (
            octet_at(s, 0, d1),
            octet_at(s, d1 + 1, d2),
            octet_at(s, d2 + 1, d3),
            octet_at(s, d3 + 1, s.len() as int),
        ) {
            (Some(a), Some(b), Some(c), Some(d)) => Some(v4_bits(a, b, c, d)),
            _ => None,
        }
    }
}

/// Reads the characters `chars[from..to]` as an octet.
fn parse_octet(chars: &Vec<char>, from: usize, to: usize) -> (r: Option<u8>)
    requires
        from <= to <= chars@.len(),
    ensures
        r == octet_at(chars@, from as int, to as int),
{
    match parse_u16(chars, from, to) {
        Some(v) => if v <= 255 {
            Some(v as u8)
        } else {
            None
        },
        None => {
            proof {
                if all_digits(chars@.subrange(from as int, to as int)) {
                    assert(dec_val(chars@.subrange(from as int, to as int)) > 255);
                }
            }
            None
        },
    }
}

/// Parses a dotted-quad version-4 address from `chars[0..len]`.
pub fn parse_v4(chars: &Vec<char>) -> (r: Option<u32>)
    ensures
        r == parse_v4_spec(chars@),
{
    let n = chars.len();
    let d1 = find_char_at(chars, '.', 0);
    if d1 == n {
        return None;
    }
    let d2 = find_char_at(chars, '.', d1 + 1);
    if d2 == n {
        return None;
    }
    let d3 = find_char_at(chars, '.', d2 + 1);
    if d3 == n {
        return None;
    }
    if find_char_at(chars, '.', d3 + 1) != n {
        return None;
    }
    let o1 = parse_octet(chars, 0, d1);
    let o2 = parse_octet(chars, d1 + 1, d2);
    let o3 = parse_octet(chars, d2 + 1, d3);
    let o4 = parse_octet(chars, d3 + 1, n);
    match (o1, o2, o3, o4) {
        (Some(a), Some(b), Some(c), Some(d)) => Some(
            (a as u32) * 0x1000000 + (b as u32) * 0x10000 + (c as u32) * 0x100 + (d as u32),
        ),
        _ => None,
    }
}

/// The reading of `s` as a version-4 network range: a dotted quad,
/// optionally followed by `/` and a prefix length of at most 32. Without
/// the slash the prefix is 32.
pub open spec fn parse_v4_net_spec(s: Seq<char>) -> Option<IpNet> {
    let sl = find_char(s, '/', 0);
    if sl == s.len() {
        match parse_v4_spec(s) {
            Some(bits) => Some(IpNet { addr: IpAddress::V4(bits), prefix: 32 }),
            None => None,
        }
    } else {
        match parse_v4_spec(s.subrange(0, sl)) {
            Some(bits) => if all_digits(s.subrange(sl + 1, s.len() as int)) && dec_val(
                s.subrange(sl + 1, s.len() as int),
            ) <= 32 {
                Some(
                    IpNet {
                        addr: IpAddress::V4(bits),
                        prefix: dec_val(s.subrange(sl + 1, s.len() as int)) as u8,
                    },
                )
            } else {
                None
            },
            None => None,
        }
    }
}

/// Parses a version-4 network range, `a.b.c.d` or `a.b.c.d/prefix`.
pub fn parse_v4_net(s: &str) -> (r: Result<IpNet, ConfigError>)
    ensures
        match r {
            Ok(net) => parse_v4_net_spec(s@) == Some(net) && net.wf(),
            Err(_) => parse_v4_net_spec(s@) is None,
        },
{
    let chars = to_char_vec(s);
    let n = chars.len();
    let sl = find_char_at(&chars, '/', 0);
    if sl == n {
        match parse_v4(&chars) {
            Some(bits) => Ok(IpNet { addr: IpAddress::V4(bits), prefix: 32 }),
            None => Err(ConfigError::InvalidNetwork(String::from_str(s))),
        }
    } else {
        let mut head: Vec<char> = Vec::new();
        let mut i: usize = 0;
        while i < sl
            invariant
                i <= sl <= chars@.len(),
                head@ == chars@.subrange(0, i as int),
            decreases sl - i,
        {
            head.push(chars[i]);
            i += 1;
        }
        proof {
            assert(head@ =~= chars@.subrange(0, sl as int));
        }
        match parse_v4(&head) {
            Some(bits) => {
                match parse_u16(&chars, sl + 1, n) {
                    Some(p) if p <= 32 => Ok(
                        IpNet { addr: IpAddress::V4(bits), prefix: p as u8 },
                    ),
                    _ => {
                        proof {
                            let tail = chars@.subrange(sl + 1, n as int);
                            if all_digits(tail) && dec_val(tail) <= 32 {
                                assert(dec_val(tail) <= 0xffff);
                            }
                        }
                        Err(ConfigError::InvalidNetwork(String::from_str(s)))
                    },
                }
            },
            None => Err(ConfigError::InvalidNetwork(String::from_str(s))),
        }
    }
}

/// A loopback address is blocked whenever the private-range switch is
/// set, and not blocked with the switch off and no explicit range that
/// holds it.
pub proof fn lemma_loopback_blocking(nets: Seq<IpNet>, addr: IpAddress)
    requires
        canonical(addr) matches IpAddress::V4(a) && a >> 24 == 127,
    ensures
        blocked_spec(nets, true, addr),
        nets.len() == 0 ==> !blocked_spec(nets, false, addr),
{
}

/// The dotted-quad text of version-4 address bits.
pub open spec fn v4_text_spec(a: u32) -> Seq<char> {
    crate::text::dec_digits(a as int / 0x1000000) + seq!['.'] + crate::text::dec_digits(
        (a as int / 0x10000) % 256,
    ) + seq!['.'] + crate::text::dec_digits((a as int / 0x100) % 256) + seq!['.']
        + crate::text::dec_digits(a as int % 256)
}

/// The text of version-6 address bits: the eight 16-bit groups in lower
/// case hexadecimal, separated by colons, with no `::` compression.
pub open spec fn v6_text_spec(b: u128) -> Seq<char> {
    crate::text::hex_digits(((b >> 112) & 0xffff) as int) + seq![':'] + crate::text::hex_digits(
        ((b >> 96) & 0xffff) as int,
    ) + seq![':'] + crate::text::hex_digits(((b >> 80) & 0xffff) as int) + seq![':']
        + crate::text::hex_digits(((b >> 64) & 0xffff) as int) + seq![':']
        + crate::text::hex_digits(((b >> 48) & 0xffff) as int) + seq![':']
        + crate::text::hex_digits(((b >> 32) & 0xffff) as int) + seq![':']
        + crate::text::hex_digits(((b >> 16) & 0xffff) as int) + seq![':']
        + crate::text::hex_digits((b & 0xffff) as int)
}

/// The text form of an address, as the allow-list sees it.
pub open spec fn addr_text(addr: IpAddress) -> Seq<char> {
    match addr {
        IpAddress::V4(a) => v4_text_spec(a),
        IpAddress::V6(b) => v6_text_spec(b),
    }
}

/// Masking to sixteen bits stays within sixteen bits.
proof fn lemma_mask16(x: u128)
    ensures
        x & 0xffff <= 0xffff,
{
    assert(x & 0xffff <= 0xffff) by (bit_vector);
}

/// Appends a dot to `out`.
fn push_dot(out: &mut String)
    ensures
        final(out)@ == old(out)@ + seq!['.'],
{
    proof {
        reveal_strlit(".");
    }
    out.append(".");
    proof {
        assert(out@ =~= old(out)@ + seq!['.']);
    }
}

/// Appends a colon to `out`.
fn push_colon(out: &mut String)
    ensures
        final(out)@ == old(out)@ + seq![':'],
{
    proof {
        reveal_strlit(":");
    }
    out.append(":");
    proof {
        assert(out@ =~= old(out)@ + seq![':']);
    }
}

/// Formats an address as text: a dotted quad, or uncompressed
/// colon-separated hexadecimal groups.
pub fn format_addr(addr: &IpAddress) -> (r: String)
    ensures
        r@ == addr_text(*addr),
{
    let mut out = String::new();
    match addr {
        IpAddress::V4(a) => {
            let a = *a;
            proof {
                assert(a / 0x1000000 < 256) by (nonlinear_arith)
                    requires
                        a <= 0xffffffffu32,
                ;
            }
            crate::text::fmt_dec_u8(&mut out, (a / 0x1000000) as u8);
            push_dot(&mut out);
            crate::text::fmt_dec_u8(&mut out, ((a / 0x10000) % 256) as u8);
            push_dot(&mut out);
            crate::text::fmt_dec_u8(&mut out, ((a / 0x100) % 256) as u8);
            push_dot(&mut out);
            crate::text::fmt_dec_u8(&mut out, (a % 256) as u8);
            proof {
                assert(out@ =~= v4_text_spec(a));
            }
        },
        IpAddress::V6(b) => {
            let b = *b;
            proof {
                lemma_mask16(b >> 112);
                lemma_mask16(b >> 96);
                lemma_mask16(b >> 80);
                lemma_mask16(b >> 64);
                lemma_mask16(b >> 48);
                lemma_mask16(b >> 32);
                lemma_mask16(b >> 16);
                lemma_mask16(b);
            }
            crate::text::fmt_hex_u16(&mut out, ((b >> 112) & 0xffff) as u16);
            push_colon(&mut out);
            crate::text::fmt_hex_u16(&mut out, ((b >> 96) & 0xffff) as u16);
            push_colon(&mut out);
            crate::text::fmt_hex_u16(&mut out, ((b >> 80) & 0xffff) as u16);
            push_colon(&mut out);
            crate::text::fmt_hex_u16(&mut out, ((b >> 64) & 0xffff) as u16);
            push_colon(&mut out);
            crate::text::fmt_hex_u16(&mut out, ((b >> 48) & 0xffff) as u16);
            push_colon(&mut out);
            crate::text::fmt_hex_u16(&mut out, ((b >> 32) & 0xffff) as u16);
            push_colon(&mut out);
            crate::text::fmt_hex_u16(&mut out, ((b >> 16) & 0xffff) as u16);
            push_colon(&mut out);
            crate::text::fmt_hex_u16(&mut out, (b & 0xffff) as u16);
            proof {
                assert(out@ =~= v6_text_spec(b));
            }
        },
    }
    out
}

/// The block-list: explicit network ranges, and a switch that also blocks
/// every standard private, loopback, link-local and unspecified range.
#[derive(Debug)]
pub struct BlockedNetworks {
    pub networks: Vec<IpNet>,
    pub block_private: bool,
}

/// True when the block-list blocks `addr`: the canonical address falls in
/// an explicit range, or `block_private` is set and it is in a standard
/// private range.
pub open spec fn blocked_spec(nets: Seq<IpNet>, block_private: bool, addr: IpAddress) -> bool {
    (exists|i: int| 0 <= i < nets.len() && (#[trigger] nets[i]).contains_spec(canonical(addr)))
        || (block_private && is_private_addr(addr))
}

impl BlockedNetworks {
    /// The block-list's invariant: every range is well-formed.
    pub open spec fn wf(&self) -> bool {
        forall|i: int| 0 <= i < self.networks@.len() ==> (#[trigger] self.networks@[i]).wf()
    }

    /// Builds a block-list from explicit ranges and the private-range
    /// switch.
    pub fn new(networks: Vec<IpNet>, block_private: bool) -> (r: Result<BlockedNetworks, ConfigError>)
        ensures
            match r {
                Ok(b) => b.networks@ == networks@ && b.block_private == block_private && b.wf(),
                Err(_) => exists|i: int|
                    0 <= i < networks@.len() && !(#[trigger] networks@[i]).wf(),
            },
    {
        let mut i: usize = 0;
        while i < networks.len()
            invariant
                i <= networks@.len(),
                forall|k: int| 0 <= k < i ==> (#[trigger] networks@[k]).wf(),
            decreases networks@.len() - i,
        {
            let net = &networks[i];
            let limit: u8 = match net.addr {
                IpAddress::V4(_) => 32,
                IpAddress::V6(_) => 128,
            };
            if net.prefix > limit {
                return Err(ConfigError::InvalidNetwork(String::new()));
            }
            i += 1;
        }
        Ok(BlockedNetworks { networks, block_private })
    }

    /// True when the block-list blocks `addr`. This check is independent of
    /// the allow-list: both must pass for a connection to proceed.
    pub fn is_blocked(&self, addr: &IpAddress) -> (r: bool)
        requires
            self.wf(),
        ensures
            r == blocked_spec(self.networks@, self.block_private, *addr),
    {
        let canon = canonicalize(addr);
        let mut i: usize = 0;
        while i < self.networks.len()
            invariant
                i <= self.networks@.len(),
                self.wf(),
                canon == canonical(*addr),
                forall|k: int|
                    0 <= k < i ==> !(#[trigger] self.networks@[k]).contains_spec(canonical(*addr)),
            decreases self.networks@.len() - i,
        {
            if self.networks[i].contains(&canon) {
                return true;
            }
            i += 1;
        }
        if self.block_private {
            return addr_is_private(addr);
        }
        false
    }

    /// A copy of the block-list.
    pub fn duplicate(&self) -> (r: BlockedNetworks)
        ensures
            r.networks@ == self.networks@,
            r.block_private == self.block_private,
    {
        let mut networks: Vec<IpNet> = Vec::new();
        let mut i: usize = 0;
        while i < self.networks.len()
            invariant
                i <= self.networks@.len(),
                networks@ == self.networks@.subrange(0, i as int),
            decreases self.networks@.len() - i,
        {
            networks.push(self.networks[i].duplicate());
            i += 1;
        }
        proof {
            assert(networks@ =~= self.networks@);
        }
        BlockedNetworks { networks, block_private: self.block_private }
    }
}

} // verus!
