//! Network addresses as text.
use vstd::prelude::*;
use vstd::string::*;

use crate::text::{dec_u64, hex_u8, join};

verus! {

/// An IPv4 address with a port.
#[derive(Clone, Copy, Debug, PartialEq, Eq)]
pub struct V4Addr {
    pub ip: [u8; 4],
    pub port: u16,
}

/// A control address of a device: what it reads like, and its IPv4 form where it has one.
#[derive(Debug)]
pub struct Endpoint {
    /// Address and port, as printed.
    pub text: String,
    /// Address alone, as printed.
    pub ip: String,
    pub port: u16,
    /// Present exactly for an IPv4 address.
    pub v4: Option<V4Addr>,
}

impl Clone for Endpoint {
    fn clone(&self) -> (r: Self)
        ensures
            r == *self,
    {
        Endpoint {
            text: self.text.clone(),
            ip: self.ip.clone(),
            port: self.port,
            v4: self.v4,
        }
    }
}

impl Endpoint {
    /// The texts and the port are those of the IPv4 form; without one, the text is that of no IPv4
    /// address.
    pub open spec fn wf(&self) -> bool {
        match self.v4 {
            Some(a) => self.text@ == v4_text(a) && self.ip@ == ip_text(a.ip@) && self.port
                == a.port,
            None => forall|a: V4Addr| self.text@ != #[trigger] v4_text(a),
        }
    }
}

/// Tells whether two IPv4 addresses are the same.
pub fn same_ip(a: &[u8; 4], b: &[u8; 4]) -> (r: bool)
    ensures
        r == (a@ == b@),
{
    if a[0] == b[0] && a[1] == b[1] && a[2] == b[2] && a[3] == b[3] {
        assert(a@ =~= b@);
        true
    } else {
        false
    }
}

/// The six bytes of a MAC address in hexadecimal, with colons between them.
pub open spec fn mac_text(m: Seq<u8>) -> Seq<char> {
    crate::text::joined(m.map_values(|b: u8| crate::text::hex_byte(b)), ":"@)
}

/// The four bytes of an IPv4 address in decimal, with dots between them.
pub open spec fn ip_text(i: Seq<u8>) -> Seq<char> {
    crate::text::joined(i.map_values(|b: u8| crate::text::decimal(b as nat)), "."@)
}

/// An IPv4 address and its port, with a colon between them.
pub open spec fn v4_text(a: V4Addr) -> Seq<char> {
    ip_text(a.ip@) + ":"@ + crate::text::decimal(a.port as nat)
}

/// A MAC address as text: `02:00:5e:10:00:ff`.
pub fn mac6_to_str(m: &[u8; 6]) -> (r: String)
    ensures
        r@ == mac_text(m@),
{
    let mut parts: Vec<String> = Vec::new();
    let mut i: usize = 0;
    while i < 6
        invariant
            i <= 6,
            parts@.len() == i,
            forall|k: int|
                0 <= k < i ==> (#[trigger] parts@[k])@ == crate::text::hex_byte(m@[k]),
        decreases 6 - i,
    {
        parts.push(hex_u8(m[i]));
        i = i + 1;
    }
    assert(crate::text::views(parts@) =~= m@.map_values(|b: u8| crate::text::hex_byte(b)));
    join(&parts, ":")
}

/// An IPv4 address as text: `10.100.11.20`.
pub fn ip4_to_str(i: &[u8; 4]) -> (r: String)
    ensures
        r@ == ip_text(i@),
{
    let mut parts: Vec<String> = Vec::new();
    let mut k: usize = 0;
    while k < 4
        invariant
            k <= 4,
            parts@.len() == k,
            forall|j: int|
                0 <= j < k ==> (#[trigger] parts@[j])@ == crate::text::decimal(i@[j] as nat),
        decreases 4 - k,
    {
        parts.push(dec_u64(i[k] as u64));
        k = k + 1;
    }
    assert(crate::text::views(parts@) =~= i@.map_values(
        |b: u8| crate::text::decimal(b as nat),
    ));
    join(&parts, ".")
}

/// An IPv4 address and its port as text: `10.100.11.20:3000`.
pub fn v4_to_str(a: &V4Addr) -> (r: String)
    ensures
        r@ == v4_text(*a),
{
    let mut r = ip4_to_str(&a.ip);
    r.append(":");
    r.append(dec_u64(a.port as u64).as_str());
    r
}

/// No character of `s` is `c`.
spec fn free_of(s: Seq<char>, c: char) -> bool {
    forall|i: int| 0 <= i < s.len() ==> #[trigger] s[i] != c
}

proof fn lemma_split_at_last(a: Seq<char>, b: Seq<char>, x: Seq<char>, y: Seq<char>, c: char)
    requires
        free_of(x, c),
        free_of(y, c),
        a + seq![c] + x == b + seq![c] + y,
    ensures
        a == b,
        x == y,
{
    let l = a + seq![c] + x;
    let r = b + seq![c] + y;
    assert(l.len() == a.len() + 1 + x.len());
    assert(r.len() == b.len() + 1 + y.len());
    if x.len() < y.len() {
        assert(l[a.len() as int] == c);
        assert(r[a.len() as int] == y[a.len() - b.len() - 1]);
    } else if y.len() < x.len() {
        assert(r[b.len() as int] == c);
        assert(l[b.len() as int] == x[b.len() - a.len() - 1]);
    }
    assert(a.len() == b.len());
    assert forall|i: int| 0 <= i < a.len() implies a[i] == b[i] by {
        assert(l[i] == a[i]);
        assert(r[i] == b[i]);
    }
    assert(a =~= b);
    assert forall|i: int| 0 <= i < x.len() implies x[i] == y[i] by {
        assert(l[a.len() + 1 + i] == x[i]);
        assert(r[b.len() + 1 + i] == y[i]);
    }
    assert(x =~= y);
}

proof fn lemma_joined_injective(p: Seq<Seq<char>>, q: Seq<Seq<char>>, c: char)
    requires
        p.len() == q.len(),
        forall|i: int| 0 <= i < p.len() ==> free_of(#[trigger] p[i], c),
        forall|i: int| 0 <= i < q.len() ==> free_of(#[trigger] q[i], c),
        crate::text::joined(p, seq![c]) == crate::text::joined(q, seq![c]),
    ensures
        p =~= q,
    decreases p.len(),
{
    if p.len() == 1 {
    } else if p.len() > 1 {
        assert(free_of(p[p.len() - 1], c));
        assert(free_of(q[q.len() - 1], c));
        lemma_split_at_last(
            crate::text::joined(p.drop_last(), seq![c]),
            crate::text::joined(q.drop_last(), seq![c]),
            p.last(),
            q.last(),
            c,
        );
        lemma_joined_injective(p.drop_last(), q.drop_last(), c);
        assert forall|i: int| 0 <= i < p.len() implies p[i] == q[i] by {
            if i < p.len() - 1 {
                assert(p.drop_last()[i] == q.drop_last()[i]);
            }
        }
    }
}

proof fn lemma_hex_free_of_colon(b: u8)
    ensures
        free_of(crate::text::hex_byte(b), ':'),
{
}

/// The text of a MAC address determines the address.
pub proof fn law_mac_text_is_injective(a: [u8; 6], b: [u8; 6])
    requires
        mac_text(a@) == mac_text(b@),
    ensures
        a == b,
{
    let p = a@.map_values(|x: u8| crate::text::hex_byte(x));
    let q = b@.map_values(|x: u8| crate::text::hex_byte(x));
    reveal_strlit(":");
    assert(":"@ =~= seq![':']);
    assert forall|i: int| 0 <= i < p.len() implies free_of(#[trigger] p[i], ':') by {
        lemma_hex_free_of_colon(a@[i]);
    }
    assert forall|i: int| 0 <= i < q.len() implies free_of(#[trigger] q[i], ':') by {
        lemma_hex_free_of_colon(b@[i]);
    }
    lemma_joined_injective(p, q, ':');
    assert forall|i: int| 0 <= i < 6 implies a@[i] == b@[i] by {
        assert(p[i] == q[i]);
        crate::text::law_hex_byte_is_injective(a@[i], b@[i]);
    }
    assert(a@ =~= b@);
}

/// The text of an IPv4 address determines the address.
pub proof fn law_ip_text_is_injective(a: [u8; 4], b: [u8; 4])
    requires
        ip_text(a@) == ip_text(b@),
    ensures
        a == b,
{
    let p = a@.map_values(|x: u8| crate::text::decimal(x as nat));
    let q = b@.map_values(|x: u8| crate::text::decimal(x as nat));
    reveal_strlit(".");
    assert("."@ =~= seq!['.']);
    assert forall|i: int| 0 <= i < p.len() implies free_of(#[trigger] p[i], '.') by {
        crate::text::law_decimal_reads_back(a@[i] as nat);
    }
    assert forall|i: int| 0 <= i < q.len() implies free_of(#[trigger] q[i], '.') by {
        crate::text::law_decimal_reads_back(b@[i] as nat);
    }
    lemma_joined_injective(p, q, '.');
    assert forall|i: int| 0 <= i < 4 implies a@[i] == b@[i] by {
        assert(p[i] == q[i]);
        crate::text::law_decimal_reads_back(a@[i] as nat);
        crate::text::law_decimal_reads_back(b@[i] as nat);
    }
    assert(a@ =~= b@);
}

/// The text of an IPv4 address with its port determines both.
pub proof fn law_v4_text_is_injective(a: V4Addr, b: V4Addr)
    requires
        v4_text(a) == v4_text(b),
    ensures
        a == b,
{
    reveal_strlit(":");
    assert(":"@ =~= seq![':']);
    crate::text::law_decimal_reads_back(a.port as nat);
    crate::text::law_decimal_reads_back(b.port as nat);
    lemma_split_at_last(
        ip_text(a.ip@),
        ip_text(b.ip@),
        crate::text::decimal(a.port as nat),
        crate::text::decimal(b.port as nat),
        ':',
    );
    law_ip_text_is_injective(a.ip, b.ip);
}

/// A MAC address is printed byte by byte in its own order: two hexadecimal digits for each, and a colon
/// between neighbours.
pub proof fn law_a_mac_is_printed_byte_by_byte(m: [u8; 6])
    ensures
        mac_text(m@) == crate::text::hex_byte(m@[0]) + ":"@ + crate::text::hex_byte(m@[1]) + ":"@
            + crate::text::hex_byte(m@[2]) + ":"@ + crate::text::hex_byte(m@[3]) + ":"@
            + crate::text::hex_byte(m@[4]) + ":"@ + crate::text::hex_byte(m@[5]),
{
    let p = m@.map_values(|x: u8| crate::text::hex_byte(x));
    lemma_joined_step(p, ":"@, 1);
    lemma_joined_step(p, ":"@, 2);
    lemma_joined_step(p, ":"@, 3);
    lemma_joined_step(p, ":"@, 4);
    lemma_joined_step(p, ":"@, 5);
    assert(p.take(1)[0] == p[0]);
    assert(p.take(6) =~= p);
}

proof fn lemma_joined_step(p: Seq<Seq<char>>, sep: Seq<char>, n: int)
    requires
        1 <= n < p.len(),
    ensures
        crate::text::joined(p.take(n + 1), sep) == crate::text::joined(p.take(n), sep) + sep + p[n],
{
    assert(p.take(n + 1).drop_last() =~= p.take(n));
    assert(p.take(n + 1).last() == p[n]);
}

/// An IPv4 address is printed byte by byte in its own order, in decimal, with a dot between neighbours;
/// its port follows a colon.
pub proof fn law_an_address_is_printed_byte_by_byte(a: V4Addr)
    ensures
        ip_text(a.ip@) == crate::text::decimal(a.ip@[0] as nat) + "."@ + crate::text::decimal(
            a.ip@[1] as nat,
        ) + "."@ + crate::text::decimal(a.ip@[2] as nat) + "."@ + crate::text::decimal(
            a.ip@[3] as nat,
        ),
        v4_text(a) == ip_text(a.ip@) + ":"@ + crate::text::decimal(a.port as nat),
{
    let p = a.ip@.map_values(|x: u8| crate::text::decimal(x as nat));
    lemma_joined_step(p, "."@, 1);
    lemma_joined_step(p, "."@, 2);
    lemma_joined_step(p, "."@, 3);
    assert(p.take(1)[0] == p[0]);
    assert(p.take(4) =~= p);
}

} // verus!
