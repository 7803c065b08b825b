//! Plain models of the IPv4 values that flow through CNI responses: an
//! address with a prefix length, and a network (CIDR) with a prefix length.
//! Turning them into text and back is done by the `cidr` crate behind
//! trusted wrappers; everything else about them is plain data.
use vstd::prelude::*;
use vstd::string::StringExecFns;

verus! {

/// An IPv4 address together with a prefix length, as in `10.0.0.2/24`.
#[derive(Clone, Copy, PartialEq, Eq, Structural, Debug)]
pub struct Ipv4Inet {
    pub a: u8,
    pub b: u8,
    pub c: u8,
    pub d: u8,
    pub prefix_len: u8,
}

impl Ipv4Inet {
    pub open spec fn wf(self) -> bool {
        self.prefix_len <= 32
    }
}

/// An IPv4 network, as in `10.1.0.0/16`: an address whose host bits are
/// zero, together with the prefix length.
#[derive(Clone, Copy, PartialEq, Eq, Structural, Debug)]
pub struct Ipv4Cidr {
    pub a: u8,
    pub b: u8,
    pub c: u8,
    pub d: u8,
    pub prefix_len: u8,
}

impl Ipv4Cidr {
    /// Whether these octets and prefix length name a network: the prefix
    /// length is at most 32 and the host bits are zero. The `cidr` crate is
    /// the authority on this condition, so it stays a named predicate.
    pub open spec fn wf(self) -> bool {
        cidr_ok(self.a, self.b, self.c, self.d, self.prefix_len)
    }
}

/// The text the `cidr` crate prints for an address/prefix pair.
pub uninterp spec fn inet_text(a: u8, b: u8, c: u8, d: u8, len: u8) -> Seq<char>;

/// The address/prefix pair the `cidr` crate reads out of a piece of text,
/// if the text is a well-formed IPv4 address with optional prefix length.
pub uninterp spec fn inet_of_text(s: Seq<char>) -> Option<(u8, u8, u8, u8, u8)>;

/// Whether the `cidr` crate accepts these octets and prefix length as a
/// network address (prefix length in range, host bits zero).
pub uninterp spec fn cidr_ok(a: u8, b: u8, c: u8, d: u8, len: u8) -> bool;

/// The text the `cidr` crate prints for a network.
pub uninterp spec fn cidr_text(a: u8, b: u8, c: u8, d: u8, len: u8) -> Seq<char>;

/// The network the `cidr` crate reads out of a piece of text, if the text
/// is a well-formed IPv4 network.
pub uninterp spec fn cidr_of_text(s: Seq<char>) -> Option<(u8, u8, u8, u8, u8)>;

/// Relies on `cidr::Ipv4Inet`'s `Display`: it prints the address, and the
/// prefix length after a slash unless the prefix length is 32; and on its
/// `FromStr` reading that text back to the same value. `Ipv4Inet::new` only
/// rejects prefix lengths over 32, which the precondition rules out.
#[verifier::external_body]
pub(crate) fn format_inet(x: &Ipv4Inet) -> (r: String)
    requires
        x.wf(),
    ensures
        r@ == inet_text(x.a, x.b, x.c, x.d, x.prefix_len),
        inet_of_text(r@) == Some((x.a, x.b, x.c, x.d, x.prefix_len)),
{
    let addr = core::net::Ipv4Addr::new(x.a, x.b, x.c, x.d);
    let inet = cidr::Ipv4Inet::new(addr, x.prefix_len).unwrap();
    format!("{}", inet)
}

/// Relies on `cidr::Ipv4Inet`'s `FromStr`: the result depends on the text
/// alone, the prefix length it accepts is at most 32, and text without a
/// slash is read as a host address with prefix length 32.
#[verifier::external_body]
pub(crate) fn parse_inet(s: &str) -> (r: Option<Ipv4Inet>)
    ensures
        match r {
            Some(x) => inet_of_text(s@) == Some((x.a, x.b, x.c, x.d, x.prefix_len)) && x.wf(),
            None => inet_of_text(s@) is None,
        },
{
    match s.parse::<cidr::Ipv4Inet>() {
        Ok(inet) => {
            let octets = inet.address().octets();
            Some(Ipv4Inet {
                a: octets[0],
                b: octets[1],
                c: octets[2],
                d: octets[3],
                prefix_len: inet.network_length(),
            })
        },
        Err(_) => None,
    }
}

/// Relies on `cidr::Ipv4Cidr::new`, which accepts exactly the network
/// addresses, and on its `Display` and `FromStr` being inverse to each
/// other, as for `Ipv4Inet`.
#[verifier::external_body]
pub(crate) fn format_cidr(x: &Ipv4Cidr) -> (r: Option<String>)
    ensures
        match r {
            Some(s) => {
                &&& cidr_ok(x.a, x.b, x.c, x.d, x.prefix_len)
                &&& s@ == cidr_text(x.a, x.b, x.c, x.d, x.prefix_len)
                &&& cidr_of_text(s@) == Some((x.a, x.b, x.c, x.d, x.prefix_len))
            },
            None => !cidr_ok(x.a, x.b, x.c, x.d, x.prefix_len),
        },
{
    let addr = core::net::Ipv4Addr::new(x.a, x.b, x.c, x.d);
    match cidr::Ipv4Cidr::new(addr, x.prefix_len) {
        Ok(net) => Some(format!("{}", net)),
        Err(_) => None,
    }
}

/// Relies on `cidr::Ipv4Cidr`'s `FromStr`: the result depends on the text
/// alone, and it only accepts network addresses.
#[verifier::external_body]
pub(crate) fn parse_cidr(s: &str) -> (r: Option<Ipv4Cidr>)
    ensures
        match r {
            Some(x) => cidr_of_text(s@) == Some((x.a, x.b, x.c, x.d, x.prefix_len)) && x.wf(),
            None => cidr_of_text(s@) is None,
        },
{
    match s.parse::<cidr::Ipv4Cidr>() {
        Ok(net) => {
            let octets = net.first_address().octets();
            Some(Ipv4Cidr {
                a: octets[0],
                b: octets[1],
                c: octets[2],
                d: octets[3],
                prefix_len: net.network_length(),
            })
        },
        Err(_) => None,
    }
}

/// The text form of a network when it stands for a host interface address:
/// a network of full prefix length gets the fixed `/22` suffix appended to
/// its printed form, any other network is printed as it is.
pub fn host_ip_text(addr: &Ipv4Cidr) -> (r: Option<String>)
    ensures
        match r {
            Some(s) => {
                &&& addr.wf()
                &&& addr.prefix_len == 32 ==> s@ == cidr_text(
                    addr.a,
                    addr.b,
                    addr.c,
                    addr.d,
                    addr.prefix_len,
                ) + "/22"@
                &&& addr.prefix_len != 32 ==> s@ == cidr_text(
                    addr.a,
                    addr.b,
                    addr.c,
                    addr.d,
                    addr.prefix_len,
                )
            },
            None => !addr.wf(),
        },
{
    match format_cidr(addr) {
        Some(base) => {
            if addr.prefix_len == 32 {
                let mut out = base;
                out.append("/22");
                Some(out)
            } else {
                Some(base)
            }
        },
        None => None,
    }
}

} // verus!
