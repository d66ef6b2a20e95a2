use vstd::prelude::*;

verus! {

/// Digit characters for every base up to sixteen, in lower case.
pub open spec fn digit_alphabet() -> Seq<char> {
    seq!['0', '1', '2', '3', '4', '5', '6', '7', '8', '9', 'a', 'b', 'c', 'd', 'e', 'f']
}

/// Decimal digits of `n`, without leading zeros.
pub open spec fn decimal_text(n: nat) -> Seq<char>
    decreases n,
{
    if n < 10 {
        seq![digit_alphabet()[n as int]]
    } else {
        decimal_text(n / 10) + seq![digit_alphabet()[(n % 10) as int]]
    }
}

/// Lower-case hexadecimal digits of `n`, without leading zeros.
pub open spec fn hex_text(n: nat) -> Seq<char>
    decreases n,
{
    if n < 16 {
        seq![digit_alphabet()[n as int]]
    } else {
        hex_text(n / 16) + seq![digit_alphabet()[(n % 16) as int]]
    }
}

/// Dotted-decimal form of an IPv4 address.
pub open spec fn ipv4_text(a: u8, b: u8, c: u8, d: u8) -> Seq<char> {
    decimal_text(a as nat) + seq!['.'] + decimal_text(b as nat) + seq!['.'] + decimal_text(
        c as nat,
    ) + seq!['.'] + decimal_text(d as nat)
}

/// How many zero segments follow one another from position `i` on.
pub open spec fn zero_run(s: Seq<u16>, i: int) -> nat
    decreases s.len() - i,
{
    if 0 <= i < s.len() && s[i] == 0 {
        1 + zero_run(s, i + 1)
    } else {
        0
    }
}

/// The first of the longest runs of zero segments that start before `n`, as
/// (start, length).
pub open spec fn longest_zero_run(s: Seq<u16>, n: int) -> (int, nat)
    decreases n,
{
    if n <= 0 {
        (0, 0)
    } else {
        let prev = longest_zero_run(s, n - 1);
        if zero_run(s, n - 1) > prev.1 {
            (n - 1, zero_run(s, n - 1))
        } else {
            prev
        }
    }
}

/// Segments in hexadecimal, separated by colons.
pub open spec fn groups_text(s: Seq<u16>) -> Seq<char>
    decreases s.len(),
{
    if s.len() == 0 {
        seq![]
    } else if s.len() == 1 {
        hex_text(s[0] as nat)
    } else {
        groups_text(s.drop_last()) + seq![':'] + hex_text(s.last() as nat)
    }
}

/// An IPv6 address of the form `::ffff:a.b.c.d`.
pub open spec fn is_ipv4_mapped(s: Seq<u16>) -> bool {
    &&& s[0] == 0
    &&& s[1] == 0
    &&& s[2] == 0
    &&& s[3] == 0
    &&& s[4] == 0
    &&& s[5] == 0xffff
}

/// Canonical text of an IPv6 address: an IPv4-mapped address ends in dotted
/// decimal; otherwise the first longest run of two or more zero segments is
/// written `::` and every other segment in lower-case hexadecimal.
pub open spec fn ipv6_text(s: Seq<u16>) -> Seq<char> {
    if is_ipv4_mapped(s) {
        seq![':', ':', 'f', 'f', 'f', 'f', ':'] + ipv4_text(
            (s[6] / 256) as u8,
            (s[6] % 256) as u8,
            (s[7] / 256) as u8,
            (s[7] % 256) as u8,
        )
    } else {
        let run = longest_zero_run(s, 8);
        if run.1 > 1 {
            groups_text(s.subrange(0, run.0)) + seq![':', ':'] + groups_text(
                s.subrange(run.0 + run.1, 8),
            )
        } else {
            groups_text(s)
        }
    }
}

/// An IPv4 address.
#[derive(Clone, Copy, Debug, PartialEq, Eq)]
pub struct Ipv4Address {
    pub octets: [u8; 4],
}

/// An IPv6 address as eight 16-bit segments.
#[derive(Clone, Copy, Debug, PartialEq, Eq)]
pub struct Ipv6Address {
    pub segments: [u16; 8],
}

/// An address of either family.
#[derive(Clone, Copy, Debug, PartialEq, Eq)]
pub enum IpAddress {
    V4(Ipv4Address),
    V6(Ipv6Address),
}

impl Ipv4Address {
    pub open spec fn text(&self) -> Seq<char> {
        ipv4_text(self.octets@[0], self.octets@[1], self.octets@[2], self.octets@[3])
    }

    pub fn new(a: u8, b: u8, c: u8, d: u8) -> (r: Ipv4Address)
        ensures
            r.octets@ == seq![a, b, c, d],
    {
        let r = Ipv4Address { octets: [a, b, c, d] };
        assert(r.octets@ =~= seq![a, b, c, d]);
        r
    }

    /// Dotted-decimal text, as `10.1.1.1`.
    pub fn to_text(&self) -> (r: String)
        ensures
            r@ == self.text(),
    {
        let mut out = String::new();
        push_ipv4(&mut out, self.octets[0], self.octets[1], self.octets[2], self.octets[3]);
        out
    }
}

impl Ipv6Address {
    pub open spec fn text(&self) -> Seq<char> {
        ipv6_text(self.segments@)
    }

    pub fn new(a: u16, b: u16, c: u16, d: u16, e: u16, f: u16, g: u16, h: u16) -> (r:
        Ipv6Address)
        ensures
            r.segments@ == seq![a, b, c, d, e, f, g, h],
    {
        let r = Ipv6Address { segments: [a, b, c, d, e, f, g, h] };
        assert(r.segments@ =~= seq![a, b, c, d, e, f, g, h]);
        r
    }

    /// Canonical text, as `fe80::1` or `::ffff:10.0.0.1`.
    pub fn to_text(&self) -> (r: String)
        ensures
            r@ == self.text(),
    {
        let s = &self.segments;
        let mut out = String::new();
        if s[0] == 0 && s[1] == 0 && s[2] == 0 && s[3] == 0 && s[4] == 0 && s[5] == 0xffff {
            push_char(&mut out, ':');
            push_char(&mut out, ':');
            push_char(&mut out, 'f');
            push_char(&mut out, 'f');
            push_char(&mut out, 'f');
            push_char(&mut out, 'f');
            push_char(&mut out, ':');
            assert(out@ =~= seq![':', ':', 'f', 'f', 'f', 'f', ':']);
            push_ipv4(
                &mut out,
                (s[6] / 256) as u8,
                (s[6] % 256) as u8,
                (s[7] / 256) as u8,
                (s[7] % 256) as u8,
            );
        } else {
            let (start, len) = first_longest_zero_run(s);
            if len > 1 {
                push_groups(&mut out, s, 0, start);
                push_char(&mut out, ':');
                push_char(&mut out, ':');
                push_groups(&mut out, s, start + len, 8);
                assert(out@ =~= groups_text(s@.subrange(0, start as int)) + seq![':', ':']
                    + groups_text(s@.subrange(start + len, 8)));
            } else {
                push_groups(&mut out, s, 0, 8);
                assert(s@.subrange(0, 8) =~= s@);
            }
        }
        out
    }
}

impl IpAddress {
    pub open spec fn text(&self) -> Seq<char> {
        match self {
            IpAddress::V4(a) => a.text(),
            IpAddress::V6(a) => a.text(),
        }
    }

    /// Canonical text of the address, in the form of its family.
    pub fn to_text(&self) -> (r: String)
        ensures
            r@ == self.text(),
    {
        match self {
            IpAddress::V4(a) => a.to_text(),
            IpAddress::V6(a) => a.to_text(),
        }
    }
}

/// Relies on String::push: the character is appended at the end.
#[verifier::external_body]
pub(crate) fn push_char(s: &mut String, c: char)
    ensures
        final(s)@ == old(s)@.push(c),
{
    s.push(c)
}

fn digit(d: u16) -> (c: char)
    requires
        d < 16,
    ensures
        c == digit_alphabet()[d as int],
{
    match d {
        0 => '0',
        1 => '1',
        2 => '2',
        3 => '3',
        4 => '4',
        5 => '5',
        6 => '6',
        7 => '7',
        8 => '8',
        9 => '9',
        10 => 'a',
        11 => 'b',
        12 => 'c',
        13 => 'd',
        14 => 'e',
        _ => 'f',
    }
}

fn push_decimal(out: &mut String, n: u8)
    ensures
        final(out)@ == old(out)@ + decimal_text(n as nat),
{
    let ghost start = out@;
    let n = n as u16;
    if n >= 100 {
        push_char(out, digit(n / 100));
    }
    if n >= 10 {
        push_char(out, digit((n / 10) % 10));
    }
    push_char(out, digit(n % 10));
    proof {
        let m = n as nat;
        if m >= 100 {
            assert(decimal_text(m / 100) == seq![digit_alphabet()[(m / 100) as int]]);
            assert(decimal_text(m / 10) == decimal_text(m / 100) + seq![
                digit_alphabet()[((m / 10) % 10) as int],
            ]);
            assert(m / 10 / 10 == m / 100);
        } else if m >= 10 {
            assert(decimal_text(m / 10) == seq![digit_alphabet()[(m / 10) as int]]);
        }
        assert(out@ =~= start + decimal_text(m));
    }
}

fn push_hex(out: &mut String, n: u16)
    ensures
        final(out)@ == old(out)@ + hex_text(n as nat),
{
    let ghost start = out@;
    if n >= 0x1000 {
        push_char(out, digit(n / 0x1000));
    }
    if n >= 0x100 {
        push_char(out, digit((n / 0x100) % 16));
    }
    if n >= 0x10 {
        push_char(out, digit((n / 0x10) % 16));
    }
    push_char(out, digit(n % 16));
    proof {
        let m = n as nat;
        assert(m / 16 / 16 == m / 0x100);
        assert(m / 0x100 / 16 == m / 0x1000);
        if m >= 0x1000 {
            assert(hex_text(m / 0x1000) == seq![digit_alphabet()[(m / 0x1000) as int]]);
            assert(hex_text(m / 0x100) == hex_text(m / 0x1000) + seq![
                digit_alphabet()[((m / 0x100) % 16) as int],
            ]);
            assert(hex_text(m / 0x10) == hex_text(m / 0x100) + seq![
                digit_alphabet()[((m / 0x10) % 16) as int],
            ]);
        } else if m >= 0x100 {
            assert(hex_text(m / 0x100) == seq![digit_alphabet()[(m / 0x100) as int]]);
            assert(hex_text(m / 0x10) == hex_text(m / 0x100) + seq![
                digit_alphabet()[((m / 0x10) % 16) as int],
            ]);
        } else if m >= 0x10 {
            assert(hex_text(m / 0x10) == seq![digit_alphabet()[(m / 0x10) as int]]);
        }
        assert(out@ =~= start + hex_text(m));
    }
}

fn push_ipv4(out: &mut String, a: u8, b: u8, c: u8, d: u8)
    ensures
        final(out)@ == old(out)@ + ipv4_text(a, b, c, d),
{
    let ghost start = out@;
    push_decimal(out, a);
    push_char(out, '.');
    push_decimal(out, b);
    push_char(out, '.');
    push_decimal(out, c);
    push_char(out, '.');
    push_decimal(out, d);
    assert(out@ =~= start + ipv4_text(a, b, c, d));
}

/// Appends the segments in `from..to`, separated by colons.
fn push_groups(out: &mut String, s: &[u16; 8], from: usize, to: usize)
    requires
        from <= to <= 8,
    ensures
        final(out)@ == old(out)@ + groups_text(s@.subrange(from as int, to as int)),
{
    let ghost start = out@;
    let mut i = from;
    assert(s@.subrange(from as int, from as int) =~= Seq::<u16>::empty());
    assert(out@ =~= start + groups_text(s@.subrange(from as int, from as int)));
    while i < to
        invariant
            from <= i <= to <= 8,
            out@ == start + groups_text(s@.subrange(from as int, i as int)),
        decreases to - i,
    {
        let ghost before = out@;
        if i > from {
            push_char(out, ':');
        }
        push_hex(out, s[i]);
        proof {
            let t = s@.subrange(from as int, i + 1);
            if i > from {
                assert(t.drop_last() =~= s@.subrange(from as int, i as int));
                assert(out@ =~= start + groups_text(t));
            } else {
                assert(t.len() == 1);
                assert(out@ =~= start + groups_text(t));
            }
        }
        i = i + 1;
    }
}

/// Length of the run of zero segments from position `i`.
fn zero_run_at(s: &[u16; 8], i: usize) -> (r: usize)
    requires
        i <= 8,
    ensures
        r == zero_run(s@, i as int),
        i + r <= 8,
{
    let mut j = i;
    while j < 8 && s[j] == 0
        invariant
            i <= j <= 8,
            zero_run(s@, i as int) == (j - i) + zero_run(s@, j as int),
        decreases 8 - j,
    {
        j = j + 1;
    }
    j - i
}

/// The first of the longest runs of zero segments, as (start, length).
fn first_longest_zero_run(s: &[u16; 8]) -> (r: (usize, usize))
    ensures
        r.0 as int == longest_zero_run(s@, 8).0,
        r.1 as nat == longest_zero_run(s@, 8).1,
        r.0 + r.1 <= 8,
{
    let mut best_start: usize = 0;
    let mut best_len: usize = 0;
    let mut i: usize = 0;
    while i < 8
        invariant
            i <= 8,
            best_start as int == longest_zero_run(s@, i as int).0,
            best_len as nat == longest_zero_run(s@, i as int).1,
            best_start + best_len <= 8,
        decreases 8 - i,
    {
        let run = zero_run_at(s, i);
        if run > best_len {
            best_start = i;
            best_len = run;
        }
        i = i + 1;
    }
    (best_start, best_len)
}

} // verus!
