//! The computer's address on the local network, as shown in the URL.
use vstd::prelude::*;
use crate::text::{decimal, push_decimal, push_char};

verus! {

/// What the address choice reads of one network interface address.
#[derive(Clone, Copy, Debug)]
pub struct InterfaceAddr {
    /// Whether the interface is a loopback interface.
    pub loopback: bool,
    /// The IPv4 address, or `None` for an IPv6 address.
    pub ipv4: Option<[u8; 4]>,
}

/// The addresses of this computer's network interfaces; calls
/// `if_addrs::get_if_addrs`, keeping for each address whether its interface
/// is a loopback one and, for IPv4, its four bytes. `None` where the system
/// cannot list them. Nothing is known of the list: it is the machine's.
#[verifier::external_body]
fn interface_addresses() -> (r: Option<Vec<InterfaceAddr>>) {
    match if_addrs::get_if_addrs() {
        Ok(ifaces) => Some(
            ifaces.iter().map(
                |i| InterfaceAddr {
                    loopback: i.is_loopback(),
                    ipv4: match &i.addr {
                        if_addrs::IfAddr::V4(v4) => Some(v4.ip.octets()),
                        if_addrs::IfAddr::V6(_) => None,
                    },
                },
            ).collect(),
        ),
        Err(_) => None,
    }
}

/// Whether an address can be offered to the phone: an IPv4 address of a
/// non-loopback interface that is neither a loopback address (127.x.x.x)
/// nor the unspecified address 0.0.0.0.
pub open spec fn usable(a: InterfaceAddr) -> bool {
    &&& !a.loopback
    &&& a.ipv4 matches Some(o)
    &&& o[0] != 127
    &&& !(o[0] == 0 && o[1] == 0 && o[2] == 0 && o[3] == 0)
}

/// The dotted-decimal notation of an IPv4 address.
pub open spec fn dotted(o: [u8; 4]) -> Seq<char> {
    decimal(o[0] as nat) + seq!['.'] + decimal(o[1] as nat) + seq!['.'] + decimal(o[2] as nat)
        + seq!['.'] + decimal(o[3] as nat)
}

/// The address offered: the first usable one, in dotted-decimal notation, or
/// `127.0.0.1` where there is none.
pub open spec fn chosen_ip(addrs: Seq<InterfaceAddr>) -> Seq<char>
    decreases addrs.len(),
{
    if addrs.len() == 0 {
        "127.0.0.1"@
    } else if usable(addrs[0]) {
        dotted(addrs[0].ipv4->0)
    } else {
        chosen_ip(addrs.drop_first())
    }
}

/// The first address is offered whenever it is an IPv4 address of a
/// non-loopback interface, outside 127.0.0.0/8 and not 0.0.0.0 (any other
/// first byte, 10.x, 172.x, 192.x alike); otherwise the choice is made among
/// the addresses after it. When nothing qualifies the result is 127.0.0.1.
pub proof fn first_lan_address_is_chosen(a: InterfaceAddr, rest: Seq<InterfaceAddr>)
    ensures
        !a.loopback && a.ipv4 is Some && a.ipv4->0[0] != 127 && !(a.ipv4->0[0] == 0
            && a.ipv4->0[1] == 0 && a.ipv4->0[2] == 0 && a.ipv4->0[3] == 0) ==> chosen_ip(
            seq![a] + rest,
        ) == dotted(a.ipv4->0),
        a.loopback || a.ipv4 is None || a.ipv4->0[0] == 127 || (a.ipv4->0[0] == 0 && a.ipv4->0[1]
            == 0 && a.ipv4->0[2] == 0 && a.ipv4->0[3] == 0) ==> chosen_ip(seq![a] + rest)
            == chosen_ip(rest),
        chosen_ip(Seq::<InterfaceAddr>::empty()) == "127.0.0.1"@,
{
    assert((seq![a] + rest)[0] == a);
    assert((seq![a] + rest).drop_first() =~= rest);
}

/// Writes an IPv4 address in dotted-decimal notation.
pub fn format_ipv4(o: [u8; 4]) -> (s: String)
    ensures
        s@ == dotted(o),
{
    let mut s = String::new();
    push_decimal(&mut s, o[0] as u32);
    push_char(&mut s, '.');
    push_decimal(&mut s, o[1] as u32);
    push_char(&mut s, '.');
    push_decimal(&mut s, o[2] as u32);
    push_char(&mut s, '.');
    push_decimal(&mut s, o[3] as u32);
    assert(s@ =~= dotted(o));
    s
}

/// Chooses the address to offer among the interface addresses.
pub fn pick_local_ip(addrs: &Vec<InterfaceAddr>) -> (s: String)
    ensures
        s@ == chosen_ip(addrs@),
{
    let n = addrs.len();
    assert(addrs@.skip(0) =~= addrs@);
    for i in 0..n
        invariant
            n == addrs@.len(),
            chosen_ip(addrs@) == chosen_ip(addrs@.skip(i as int)),
    {
        let a = addrs[i];
        proof {
            assert(addrs@.skip(i as int)[0] == a);
            assert(addrs@.skip(i as int).drop_first() =~= addrs@.skip(i + 1));
        }
        if !a.loopback {
            match a.ipv4 {
                Some(o) => {
                    if o[0] != 127 && !(o[0] == 0 && o[1] == 0 && o[2] == 0 && o[3] == 0) {
                        return format_ipv4(o);
                    }
                },
                None => {},
            }
        }
    }
    assert(addrs@.skip(n as int) =~= Seq::<InterfaceAddr>::empty());
    String::from_str("127.0.0.1")
}

/// The first non-loopback IPv4 address of this computer, falling back to
/// `127.0.0.1` when there is no such address or the interfaces cannot be
/// listed.
pub fn get_local_ip() -> (s: String)
    ensures
        exists|addrs: Seq<InterfaceAddr>| s@ == #[trigger] chosen_ip(addrs),
{
    match interface_addresses() {
        Some(addrs) => pick_local_ip(&addrs),
        None => {
            let s = String::from_str("127.0.0.1");
            assert(s@ == chosen_ip(Seq::<InterfaceAddr>::empty()));
            s
        },
    }
}

} // verus!
