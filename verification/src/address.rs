//! IP addresses as plain numbers, and their canonical text.

use vstd::prelude::*;
use vstd::string::*;
use crate::text::{decimal, decimal_text, digit_char, push_char};

verus! {

/// An IP address: the 32 bits of an IPv4 address or the 128 bits of an IPv6
/// address, most significant first.
#[derive(Debug, Clone, Copy, PartialEq, Eq, Hash, Structural)]
pub enum IpAddr {
    V4(u32),
    V6(u128),
}

impl IpAddr {
    /// The address 127.0.0.1.
    pub fn v4_localhost() -> (r: IpAddr)
        ensures
            r == IpAddr::V4(0x7f00_0001),
    {
        IpAddr::V4(0x7f00_0001)
    }

    /// The address ::1.
    pub fn v6_localhost() -> (r: IpAddr)
        ensures
            r == IpAddr::V6(1),
    {
        IpAddr::V6(1)
    }

    pub open spec fn is_v4(self) -> bool {
        self is V4
    }

    pub fn is_ipv4(self) -> (r: bool)
        ensures
            r == self.is_v4(),
    {
        match self {
            IpAddr::V4(_) => true,
            IpAddr::V6(_) => false,
        }
    }

    /// All bits zero: bound on every interface.
    pub open spec fn unspecified(self) -> bool {
        match self {
            IpAddr::V4(bits) => bits == 0,
            IpAddr::V6(bits) => bits == 0,
        }
    }

    pub fn is_unspecified(self) -> (r: bool)
        ensures
            r == self.unspecified(),
    {
        match self {
            IpAddr::V4(bits) => bits == 0,
            IpAddr::V6(bits) => bits == 0,
        }
    }

    /// 127.0.0.0/8 or ::1.
    pub open spec fn loopback(self) -> bool {
        match self {
            IpAddr::V4(bits) => bits / 0x0100_0000 == 127,
            IpAddr::V6(bits) => bits == 1,
        }
    }

    pub fn is_loopback(self) -> (r: bool)
        ensures
            r == self.loopback(),
    {
        match self {
            IpAddr::V4(bits) => bits / 0x0100_0000 == 127,
            IpAddr::V6(bits) => bits == 1,
        }
    }
}

/// Whether 128 bits are an IPv4 address mapped into IPv6 (::ffff:a.b.c.d).
pub open spec fn is_v4_mapped(bits: u128) -> bool {
    bits / 0x1_0000_0000 == 0xffff
}

/// The address with an IPv4-mapped IPv6 address reduced to its IPv4 form.
pub open spec fn normalized_ip(address: IpAddr) -> IpAddr {
    match address {
        IpAddr::V6(bits) if is_v4_mapped(bits) => IpAddr::V4((bits % 0x1_0000_0000) as u32),
        _ => address,
    }
}

/// Reduce an IPv4-mapped IPv6 address to IPv4 and keep every other address.
pub fn normalize_ip_address(address: IpAddr) -> (r: IpAddr)
    ensures
        r == normalized_ip(address),
{
    match address {
        IpAddr::V4(_) => address,
        IpAddr::V6(bits) => if bits / 0x1_0000_0000 == 0xffff {
            IpAddr::V4((bits % 0x1_0000_0000) as u32)
        } else {
            address
        },
    }
}

/// Normalizing twice is normalizing once, and never yields a mapped address.
pub proof fn law_normalized_ip_is_idempotent(address: IpAddr)
    ensures
        normalized_ip(normalized_ip(address)) == normalized_ip(address),
        normalized_ip(address) matches IpAddr::V6(bits) ==> !is_v4_mapped(bits),
{
}

/// The text of an IPv4 address: four decimal octets joined by dots.
pub open spec fn v4_text(bits: u32) -> Seq<char> {
    decimal((bits / 0x0100_0000) as nat) + seq!['.'] + decimal(((bits / 0x0001_0000) % 256) as nat)
        + seq!['.'] + decimal(((bits / 0x0100) % 256) as nat) + seq!['.'] + decimal(
        (bits % 256) as nat,
    )
}

fn v4_text_of(bits: u32) -> (r: String)
    ensures
        r@ == v4_text(bits),
{
    let mut text = decimal_text((bits / 0x0100_0000) as u128);
    push_char(&mut text, '.');
    text.append(decimal_text(((bits / 0x0001_0000) % 256) as u128).as_str());
    push_char(&mut text, '.');
    text.append(decimal_text(((bits / 0x0100) % 256) as u128).as_str());
    push_char(&mut text, '.');
    text.append(decimal_text((bits % 256) as u128).as_str());
    assert(text@ =~= v4_text(bits));
    text
}

/// 65536 to the power `n`.
pub open spec fn pow_segment(n: nat) -> nat
    decreases n,
{
    if n == 0 {
        1
    } else {
        0x1_0000 * pow_segment((n - 1) as nat)
    }
}

/// The eight 16-bit groups of an IPv6 address, most significant first.
pub open spec fn v6_segments(bits: u128) -> Seq<u16> {
    Seq::new(8, |i: int| ((bits as nat / pow_segment((7 - i) as nat)) % 0x1_0000) as u16)
}

proof fn lemma_pow_segments()
    ensures
        pow_segment(0) == 1,
        pow_segment(1) == 0x1_0000,
        pow_segment(2) == 0x1_0000_0000,
        pow_segment(3) == 0x1_0000_0000_0000,
        pow_segment(4) == 0x1_0000_0000_0000_0000,
        pow_segment(5) == 0x1_0000_0000_0000_0000_0000,
        pow_segment(6) == 0x1_0000_0000_0000_0000_0000_0000,
        pow_segment(7) == 0x1_0000_0000_0000_0000_0000_0000_0000,
{
    reveal_with_fuel(pow_segment, 8);
}

fn v6_segments_of(bits: u128) -> (r: Vec<u16>)
    ensures
        r@ == v6_segments(bits),
{
    proof {
        lemma_pow_segments();
    }
    let mut segments: Vec<u16> = Vec::new();
    segments.push((bits / 0x1_0000_0000_0000_0000_0000_0000_0000 % 0x1_0000) as u16);
    segments.push((bits / 0x1_0000_0000_0000_0000_0000_0000 % 0x1_0000) as u16);
    segments.push((bits / 0x1_0000_0000_0000_0000_0000 % 0x1_0000) as u16);
    segments.push((bits / 0x1_0000_0000_0000_0000 % 0x1_0000) as u16);
    segments.push((bits / 0x1_0000_0000_0000 % 0x1_0000) as u16);
    segments.push((bits / 0x1_0000_0000 % 0x1_0000) as u16);
    segments.push((bits / 0x1_0000 % 0x1_0000) as u16);
    segments.push((bits % 0x1_0000) as u16);
    assert forall|i: int| 0 <= i < 8 implies segments@[i] == v6_segments(bits)[i] by {
        if i == 0 {
        } else if i == 1 {
        } else if i == 2 {
        } else if i == 3 {
        } else if i == 4 {
        } else if i == 5 {
        } else if i == 6 {
        } else {
            assert(i == 7);
            assert(bits as nat / 1 == bits as nat);
        }
    }
    assert(segments@ =~= v6_segments(bits));
    segments
}

/// The lower-case hexadecimal digit for `d`.
pub open spec fn hex_char(d: nat) -> char {
    if d < 10 {
        digit_char(d)
    } else {
        ((87 + d) as u32) as char
    }
}

/// `n` in lower-case hexadecimal without leading zeros.
pub open spec fn hexadecimal(n: nat) -> Seq<char>
    decreases n,
{
    if n < 16 {
        seq![hex_char(n)]
    } else {
        hexadecimal(n / 16).push(hex_char(n % 16))
    }
}

fn hex_digit(d: u8) -> (r: char)
    requires
        d < 16,
    ensures
        r == hex_char(d as nat),
{
    if d < 10 {
        (48 + d) as char
    } else {
        (87 + d) as char
    }
}

fn hexadecimal_text(n: u16) -> (r: String)
    ensures
        r@ == hexadecimal(n as nat),
    decreases n,
{
    if n < 16 {
        let mut text = String::new();
        push_char(&mut text, hex_digit(n as u8));
        text
    } else {
        let mut text = hexadecimal_text(n / 16);
        push_char(&mut text, hex_digit((n % 16) as u8));
        text
    }
}

/// How many consecutive groups from `i` on are zero.
pub open spec fn zero_run(segments: Seq<u16>, i: int) -> nat
    decreases segments.len() - i,
{
    if 0 <= i < segments.len() && segments[i] == 0 {
        1 + zero_run(segments, i + 1)
    } else {
        0
    }
}

/// Among the starts below `k`, the first with the longest run of zero groups.
pub open spec fn longest_run_start(segments: Seq<u16>, k: nat) -> nat
    decreases k,
{
    if k == 0 {
        0
    } else {
        let best = longest_run_start(segments, (k - 1) as nat);
        if zero_run(segments, k - 1) > zero_run(segments, best as int) {
            (k - 1) as nat
        } else {
            best
        }
    }
}

/// Groups `from..to` in hexadecimal, joined by colons.
pub open spec fn joined_segments(segments: Seq<u16>, from: int, to: int) -> Seq<char>
    decreases to - from,
{
    if to <= from {
        Seq::empty()
    } else if to == from + 1 {
        hexadecimal(segments[from] as nat)
    } else {
        joined_segments(segments, from, to - 1) + seq![':'] + hexadecimal(segments[to - 1] as nat)
    }
}

/// The canonical text of an IPv6 address: mapped addresses in mixed form, else
/// the first longest run of two or more zero groups written as `::`.
pub open spec fn v6_text(bits: u128) -> Seq<char> {
    if is_v4_mapped(bits) {
        seq![':', ':', 'f', 'f', 'f', 'f', ':'] + v4_text((bits % 0x1_0000_0000) as u32)
    } else {
        let segments = v6_segments(bits);
        let start = longest_run_start(segments, 8) as int;
        let run = zero_run(segments, start);
        if run > 1 {
            joined_segments(segments, 0, start) + seq![':', ':'] + joined_segments(
                segments,
                start + run,
                8,
            )
        } else {
            joined_segments(segments, 0, 8)
        }
    }
}

/// The canonical text of an address.
pub open spec fn ip_text(address: IpAddr) -> Seq<char> {
    match address {
        IpAddr::V4(bits) => v4_text(bits),
        IpAddr::V6(bits) => v6_text(bits),
    }
}

fn zero_run_of(segments: &Vec<u16>, from: usize) -> (r: usize)
    requires
        from <= segments.len(),
    ensures
        r == zero_run(segments@, from as int),
        from + r <= segments.len(),
    decreases segments.len() - from,
{
    if from < segments.len() && segments[from] == 0 {
        1 + zero_run_of(segments, from + 1)
    } else {
        0
    }
}

fn joined_segments_text(segments: &Vec<u16>, from: usize, to: usize) -> (r: String)
    requires
        from <= segments.len(),
        to <= segments.len(),
    ensures
        r@ == joined_segments(segments@, from as int, to as int),
{
    let mut text = String::new();
    let mut next: usize = from;
    while next < to
        invariant
            from <= next,
            next <= to || next == from,
            to <= segments.len(),
            text@ == joined_segments(segments@, from as int, next as int),
        decreases to - next,
    {
        if next > from {
            push_char(&mut text, ':');
        }
        text.append(hexadecimal_text(segments[next]).as_str());
        next = next + 1;
        assert(text@ =~= joined_segments(segments@, from as int, next as int));
    }
    proof {
        if to <= from {
            assert(joined_segments(segments@, from as int, to as int) =~= Seq::<char>::empty());
        }
    }
    text
}

fn longest_run_start_of(segments: &Vec<u16>) -> (r: usize)
    requires
        segments.len() == 8,
    ensures
        r == longest_run_start(segments@, 8),
        r < 8,
{
    let mut best: usize = 0;
    let mut k: usize = 0;
    while k < 8
        invariant
            k <= 8,
            best < 8,
            segments.len() == 8,
            best == longest_run_start(segments@, k as nat),
        decreases 8 - k,
    {
        if zero_run_of(segments, k) > zero_run_of(segments, best) {
            best = k;
        }
        k = k + 1;
    }
    best
}

/// Render an address in its canonical text.
pub fn ip_address_text(address: IpAddr) -> (r: String)
    ensures
        r@ == ip_text(address),
{
    match address {
        IpAddr::V4(bits) => v4_text_of(bits),
        IpAddr::V6(bits) => {
            if bits / 0x1_0000_0000 == 0xffff {
                proof {
                    reveal_strlit("::ffff:");
                }
                let mut text = "::ffff:".to_owned();
                assert(text@ =~= seq![':', ':', 'f', 'f', 'f', 'f', ':']);
                text.append(v4_text_of((bits % 0x1_0000_0000) as u32).as_str());
                text
            } else {
                let segments = v6_segments_of(bits);
                let start: usize = longest_run_start_of(&segments);
                let run: usize = zero_run_of(&segments, start);
                if run > 1 {
                    let mut text = joined_segments_text(&segments, 0, start);
                    push_char(&mut text, ':');
                    push_char(&mut text, ':');
                    text.append(joined_segments_text(&segments, start + run, 8).as_str());
                    assert(text@ =~= v6_text(bits));
                    text
                } else {
                    joined_segments_text(&segments, 0, 8)
                }
            }
        },
    }
}

} // verus!
