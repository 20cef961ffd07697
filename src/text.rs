//! Textual forms of internet addresses: dotted decimal for IPv4, and the
//! canonical (RFC 5952) form for IPv6, as the standard library prints them.

use vstd::prelude::*;

verus! {

/// The character of a digit below 16: `0`-`9`, then lower-case `a`-`f`.
pub open spec fn digit_char(d: nat) -> char {
    if d < 10 {
        (48 + d) as char
    } else {
        (87 + d) as char
    }
}

/// `n` written in base `b`, without leading zeros (zero is `"0"`).
pub open spec fn radix_text(n: nat, b: nat) -> Seq<char>
    decreases n via radix_text_decreases
{
    if b < 2 || n < b {
        seq![digit_char(n)]
    } else {
        radix_text(n / b, b).push(digit_char(n % b))
    }
}

#[via_fn]
proof fn radix_text_decreases(n: nat, b: nat) {
    if !(b < 2 || n < b) {
        assert(n / b < n) by (nonlinear_arith)
            requires
                b >= 2,
                n >= b,
        ;
    }
}

pub open spec fn decimal(n: nat) -> Seq<char> {
    radix_text(n, 10)
}

pub open spec fn hex(n: nat) -> Seq<char> {
    radix_text(n, 16)
}

/// Four octets as four dot-separated decimal numbers.
pub open spec fn ipv4_text(o: Seq<u8>) -> Seq<char> {
    decimal(o[0] as nat) + seq!['.'] + decimal(o[1] as nat) + seq!['.'] + decimal(o[2] as nat)
        + seq!['.'] + decimal(o[3] as nat)
}

/// The eight 16-bit groups of a 16-octet address, each read big-endian.
pub open spec fn groups(o: Seq<u8>) -> Seq<u16> {
    Seq::new(8, |i: int| (o[2 * i] as nat * 256 + o[2 * i + 1] as nat) as u16)
}

/// The number of zero groups that follow one another from index `i` on.
pub open spec fn zero_run(g: Seq<u16>, i: int) -> nat
    decreases g.len() - i,
{
    if 0 <= i < g.len() && g[i] == 0 {
        1 + zero_run(g, i + 1)
    } else {
        0
    }
}

/// `s` starts the longest run of zero groups, and the first of the longest
/// where several tie.
pub open spec fn is_longest_run_start(g: Seq<u16>, s: int) -> bool {
    &&& 0 <= s < g.len()
    &&& forall|j: int| 0 <= j < g.len() ==> zero_run(g, j) <= zero_run(g, s)
    &&& forall|j: int| 0 <= j < s ==> zero_run(g, j) < zero_run(g, s)
}

/// Groups in hexadecimal, separated by colons.
pub open spec fn join_hex(g: Seq<u16>) -> Seq<char>
    decreases g.len(),
{
    if g.len() == 0 {
        seq![]
    } else if g.len() == 1 {
        hex(g[0] as nat)
    } else {
        join_hex(g.drop_last()) + seq![':'] + hex(g.last() as nat)
    }
}

/// The groups with the run of zeros that starts at `s` written as `::`,
/// where that run holds more than one group.
pub open spec fn compressed(g: Seq<u16>, s: int) -> Seq<char> {
    let l = zero_run(g, s);
    if l > 1 {
        join_hex(g.take(s)) + seq![':', ':'] + join_hex(g.skip(s + l))
    } else {
        join_hex(g)
    }
}

/// The address is an IPv4 address mapped into IPv6 (`::ffff:a.b.c.d`).
pub open spec fn is_v4_mapped(o: Seq<u8>) -> bool {
    &&& forall|i: int| 0 <= i < 10 ==> o[i] == 0
    &&& o[10] == 0xff
    &&& o[11] == 0xff
}

pub open spec fn ipv6_text(o: Seq<u8>) -> Seq<char> {
    if is_v4_mapped(o) {
        seq![':', ':', 'f', 'f', 'f', 'f', ':'] + ipv4_text(o.subrange(12, 16))
    } else {
        let g = groups(o);
        compressed(g, choose|s: int| is_longest_run_start(g, s))
    }
}

/// Relies on `String::push`: the character is appended at the end.
#[verifier::external_body]
fn push_char(s: &mut String, c: char)
    ensures
        final(s)@ == old(s)@.push(c),
{
    s.push(c)
}

fn digit(d: u16) -> (c: char)
    requires
        d < 16,
    ensures
        c == digit_char(d as nat),
{
    if d < 10 {
        ((48 + d) as u8) as char
    } else {
        ((87 + d) as u8) as char
    }
}

/// Appends `n` in base `b`.
fn push_radix(s: &mut String, n: u16, b: u16)
    requires
        2 <= b <= 16,
    ensures
        final(s)@ == old(s)@ + radix_text(n as nat, b as nat),
    decreases n,
{
    if n >= b {
        assert(n / b < n) by (nonlinear_arith)
            requires
                b >= 2,
                n >= b,
        ;
        push_radix(s, n / b, b);
    }
    let c = digit(n % b);
    push_char(s, c);
    if n >= b {
        assert(radix_text(n as nat, b as nat) == radix_text((n / b) as nat, b as nat).push(c));
    } else {
        proof {
            vstd::arithmetic::div_mod::lemma_small_mod(n as nat, b as nat);
        }
        assert(radix_text(n as nat, b as nat) == seq![c]);
    }
    assert(s@ =~= old(s)@ + radix_text(n as nat, b as nat));
}

/// Appends the octets `o[at..at + 4]` in dotted decimal.
fn push_ipv4(s: &mut String, o: &Vec<u8>, at: usize)
    requires
        at + 4 <= o.len(),
    ensures
        final(s)@ == old(s)@ + ipv4_text(o@.subrange(at as int, at + 4)),
{
    let ghost q = o@.subrange(at as int, at + 4);
    push_radix(s, o[at] as u16, 10);
    push_char(s, '.');
    push_radix(s, o[at + 1] as u16, 10);
    push_char(s, '.');
    push_radix(s, o[at + 2] as u16, 10);
    push_char(s, '.');
    push_radix(s, o[at + 3] as u16, 10);
    assert(s@ =~= old(s)@ + ipv4_text(q));
}

/// The dotted-decimal text of a four-octet address (`"127.0.0.1"`).
pub fn ipv4_string(o: &Vec<u8>) -> (r: String)
    requires
        o.len() == 4,
    ensures
        r@ == ipv4_text(o@),
{
    let mut s = String::new();
    push_ipv4(&mut s, o, 0);
    assert(o@.subrange(0, 4) =~= o@);
    assert(s@ =~= ipv4_text(o@));
    s
}

proof fn lemma_zero_run_bound(g: Seq<u16>, i: int)
    requires
        0 <= i <= g.len(),
    ensures
        zero_run(g, i) <= g.len() - i,
    decreases g.len() - i,
{
    if i < g.len() {
        lemma_zero_run_bound(g, i + 1);
    }
}

proof fn lemma_longest_run_unique(g: Seq<u16>, a: int, b: int)
    requires
        is_longest_run_start(g, a),
        is_longest_run_start(g, b),
    ensures
        a == b,
{
    if a < b {
        assert(zero_run(g, a) < zero_run(g, b));
        assert(zero_run(g, b) <= zero_run(g, a));
    } else if b < a {
        assert(zero_run(g, b) < zero_run(g, a));
        assert(zero_run(g, a) <= zero_run(g, b));
    }
}

fn run_at(g: &Vec<u16>, i: usize) -> (r: usize)
    requires
        i <= g.len(),
    ensures
        r == zero_run(g@, i as int),
{
    let mut k: usize = i;
    while k < g.len() && g[k] == 0
        invariant
            i <= k <= g.len(),
            zero_run(g@, i as int) == (k - i) + zero_run(g@, k as int),
        decreases g.len() - k,
    {
        k += 1;
    }
    k - i
}

/// The start and the length of the first longest run of zero groups.
fn longest_zero_run(g: &Vec<u16>) -> (r: (usize, usize))
    requires
        g.len() >= 1,
    ensures
        is_longest_run_start(g@, r.0 as int),
        r.1 == zero_run(g@, r.0 as int),
{
    let mut best: usize = 0;
    let mut best_len: usize = run_at(g, 0);
    let mut i: usize = 1;
    while i < g.len()
        invariant
            1 <= i <= g.len(),
            best < i,
            best_len == zero_run(g@, best as int),
            forall|j: int| 0 <= j < i ==> zero_run(g@, j) <= best_len,
            forall|j: int| 0 <= j < best ==> zero_run(g@, j) < best_len,
        decreases g.len() - i,
    {
        let l = run_at(g, i);
        if l > best_len {
            best = i;
            best_len = l;
        }
        i += 1;
    }
    (best, best_len)
}

/// Appends the groups `g[lo..hi]` in hexadecimal, separated by colons.
fn push_joined(s: &mut String, g: &Vec<u16>, lo: usize, hi: usize)
    requires
        lo <= hi <= g.len(),
    ensures
        final(s)@ == old(s)@ + join_hex(g@.subrange(lo as int, hi as int)),
{
    let mut k: usize = lo;
    while k < hi
        invariant
            lo <= k <= hi <= g.len(),
            s@ == old(s)@ + join_hex(g@.subrange(lo as int, k as int)),
        decreases hi - k,
    {
        let ghost before = s@;
        if k > lo {
            push_char(s, ':');
        }
        push_radix(s, g[k], 16);
        let ghost part = g@.subrange(lo as int, k + 1);
        assert(part.drop_last() =~= g@.subrange(lo as int, k as int));
        if k == lo {
            assert(join_hex(part) == hex(g[k as int] as nat));
        }
        assert(s@ =~= old(s)@ + join_hex(part));
        k += 1;
    }
}

/// The canonical text of a sixteen-octet address (`"::1"`, `"2001:db8::1"`,
/// `"::ffff:10.0.0.1"`): groups in lower-case hexadecimal without leading
/// zeros, the first longest run of two or more zero groups written `::`, and
/// an IPv4-mapped address with its last four octets in dotted decimal.
pub fn ipv6_string(o: &Vec<u8>) -> (r: String)
    requires
        o.len() == 16,
    ensures
        r@ == ipv6_text(o@),
{
    let mut s = String::new();
    let mut mapped = o[10] == 0xff && o[11] == 0xff;
    let mut i: usize = 0;
    while i < 10
        invariant
            o.len() == 16,
            i <= 10,
            mapped == (o[10] == 0xff && o[11] == 0xff && forall|j: int| 0 <= j < i ==> o[j] == 0),
        decreases 10 - i,
    {
        if o[i] != 0 {
            mapped = false;
        }
        i += 1;
    }
    if mapped {
        push_char(&mut s, ':');
        push_char(&mut s, ':');
        push_char(&mut s, 'f');
        push_char(&mut s, 'f');
        push_char(&mut s, 'f');
        push_char(&mut s, 'f');
        push_char(&mut s, ':');
        push_ipv4(&mut s, o, 12);
        assert(s@ =~= ipv6_text(o@));
        return s;
    }
    let mut g: Vec<u16> = Vec::new();
    let mut k: usize = 0;
    while k < 8
        invariant
            o.len() == 16,
            k <= 8,
            g@ =~= groups(o@).take(k as int),
        decreases 8 - k,
    {
        g.push((o[2 * k] as u16) * 256 + o[2 * k + 1] as u16);
        k += 1;
    }
    assert(g@ =~= groups(o@));
    let (start, len) = longest_zero_run(&g);
    proof {
        let c = choose|t: int| is_longest_run_start(g@, t);
        lemma_longest_run_unique(g@, c, start as int);
        lemma_zero_run_bound(g@, start as int);
    }
    if len > 1 {
        push_joined(&mut s, &g, 0, start);
        push_char(&mut s, ':');
        push_char(&mut s, ':');
        push_joined(&mut s, &g, start + len, 8);
        assert(g@.take(start as int) =~= g@.subrange(0, start as int));
        assert(g@.skip(start + len) =~= g@.subrange(start + len, 8));
    } else {
        push_joined(&mut s, &g, 0, 8);
        assert(g@.subrange(0, 8) =~= g@);
    }
    assert(s@ =~= ipv6_text(o@));
    s
}

/// The sixteen octets of the IPv6 loopback address, `::1`.
pub open spec fn ipv6_loopback() -> Seq<u8> {
    Seq::new(16, |i: int| if i == 15 { 1u8 } else { 0u8 })
}

proof fn lemma_hex_shape(n: nat)
    ensures
        hex(n).len() >= 1,
        hex(n)[0] != ':',
        n >= 16 ==> hex(n).len() >= 2,
        n < 16 ==> hex(n) == seq![digit_char(n)],
    decreases n,
{
    if n >= 16 {
        assert(n / 16 < n);
        lemma_hex_shape(n / 16);
    }
}

proof fn lemma_join_shape(g: Seq<u16>)
    ensures
        g.len() == 0 ==> join_hex(g).len() == 0,
        g.len() >= 1 ==> join_hex(g).len() >= 2 * g.len() - 1 && join_hex(g)[0] != ':',
    decreases g.len(),
{
    if g.len() == 1 {
        lemma_hex_shape(g[0] as nat);
    } else if g.len() > 1 {
        lemma_join_shape(g.drop_last());
        lemma_hex_shape(g.last() as nat);
    }
}

proof fn lemma_zero_prefix(g: Seq<u16>, i: int, k: nat)
    requires
        zero_run(g, i) >= k,
        0 <= i <= g.len(),
    ensures
        i + k <= g.len(),
        forall|j: int| i <= j < i + k ==> #[trigger] g[j] == 0,
    decreases k,
{
    lemma_zero_run_bound(g, i);
    if k > 0 {
        assert(i < g.len() && g[i] == 0);
        let k1: nat = (k - 1) as nat;
        lemma_zero_prefix(g, i + 1, k1);
    }
}

/// Exactly one address prints as `"::1"`: the IPv6 loopback address.
pub proof fn lemma_only_loopback_prints_as_loopback(o: Seq<u8>)
    requires
        o.len() == 16,
    ensures
        (ipv6_text(o) == seq![':', ':', '1']) <==> (o == ipv6_loopback()),
{
    let g = groups(o);
    let one = seq![':', ':', '1'];
    if o == ipv6_loopback() {
        assert(!is_v4_mapped(o));
        assert forall|j: int| 0 <= j < 7 implies g[j] == 0 by {
            assert(o[2 * j] == 0 && o[2 * j + 1] == 0);
        }
        assert(g[7] == 1);
        assert(zero_run(g, 8) == 0);
        assert(zero_run(g, 7) == 0);
        assert(zero_run(g, 6) == 1);
        assert(zero_run(g, 5) == 2);
        assert(zero_run(g, 4) == 3);
        assert(zero_run(g, 3) == 4);
        assert(zero_run(g, 2) == 5);
        assert(zero_run(g, 1) == 6);
        assert(zero_run(g, 0) == 7);
        assert forall|j: int| 0 <= j < g.len() implies #[trigger] zero_run(g, j) <= zero_run(g, 0) by {
            lemma_zero_run_bound(g, j);
        }
        assert(is_longest_run_start(g, 0));
        let c = choose|t: int| is_longest_run_start(g, t);
        lemma_longest_run_unique(g, c, 0);
        assert(g.take(0).len() == 0);
        assert(g.skip(7) =~= seq![1u16]);
        lemma_hex_shape(1);
        assert(digit_char(1) == '1');
        assert(ipv6_text(o) =~= one);
    }
    if ipv6_text(o) == one {
        if is_v4_mapped(o) {
            assert(ipv6_text(o).len() >= 7);
        }
        let c = choose|t: int| is_longest_run_start(g, t);
        let l = zero_run(g, c);
        assert(ipv6_text(o) == compressed(g, c));
        if l > 1 {
            assert(0 <= c < 8);
            lemma_zero_run_bound(g, c);
            let a = join_hex(g.take(c));
            let b = join_hex(g.skip(c + l));
            assert(compressed(g, c) == a + seq![':', ':'] + b);
            lemma_join_shape(g.take(c));
            lemma_join_shape(g.skip(c + l));
            if c > 0 {
                assert((a + seq![':', ':'] + b)[0] == a[0]);
            }
            assert(c == 0);
            assert(g.skip(l as int).len() == 1);
            assert(l == 7);
            assert(g.skip(7) =~= seq![g[7]]);
            lemma_hex_shape(g[7] as nat);
            assert(b == hex(g[7] as nat));
            assert(b =~= seq!['1']) by {
                assert((a + seq![':', ':'] + b) =~= one);
                assert(a.len() == 0);
                assert(b[0] == one[2]);
            }
            assert(g[7] == 1);
            lemma_zero_prefix(g, 0, 7);
            assert forall|i: int| 0 <= i < 16 implies o[i] == ipv6_loopback()[i] by {
                let j = i / 2;
                assert(g[j] == (o[2 * j] as nat * 256 + o[2 * j + 1] as nat) as u16);
                assert(i == 2 * j || i == 2 * j + 1);
            }
            assert(o =~= ipv6_loopback());
        } else {
            lemma_join_shape(g);
        }
    }
}

} // verus!
