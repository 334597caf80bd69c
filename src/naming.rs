//! Names under which devices and their servers are known: the PCI location
//! as `bb:dd:ff` in two-digit lower-case hex, prefixed by the kind.

use vstd::prelude::*;
use vstd::string::StringExecFns;

verus! {

/// The lower-case hex digit of `n < 16`.
pub open spec fn hex_char(n: u8) -> char {
    if n < 10 {
        (('0' as u8) + n) as char
    } else {
        (('a' as u8) + (n - 10)) as char
    }
}

/// Two lower-case hex digits of `b`.
pub open spec fn hex2(b: u8) -> Seq<char> {
    seq![hex_char(b / 16), hex_char(b % 16)]
}

/// `bus:dev:func`, each as two hex digits.
pub open spec fn location_spec(bus: u8, dev: u8, func: u8) -> Seq<char> {
    hex2(bus) + seq![':'] + hex2(dev) + seq![':'] + hex2(func)
}

fn hex_digit_str(n: u8) -> (r: &'static str)
    requires
        n < 16,
    ensures
        r@ == seq![hex_char(n)],
{
    match n {
        0 => { proof { reveal_strlit("0"); } "0" },
        1 => { proof { reveal_strlit("1"); } "1" },
        2 => { proof { reveal_strlit("2"); } "2" },
        3 => { proof { reveal_strlit("3"); } "3" },
        4 => { proof { reveal_strlit("4"); } "4" },
        5 => { proof { reveal_strlit("5"); } "5" },
        6 => { proof { reveal_strlit("6"); } "6" },
        7 => { proof { reveal_strlit("7"); } "7" },
        8 => { proof { reveal_strlit("8"); } "8" },
        9 => { proof { reveal_strlit("9"); } "9" },
        10 => { proof { reveal_strlit("a"); } "a" },
        11 => { proof { reveal_strlit("b"); } "b" },
        12 => { proof { reveal_strlit("c"); } "c" },
        13 => { proof { reveal_strlit("d"); } "d" },
        14 => { proof { reveal_strlit("e"); } "e" },
        _ => { proof { reveal_strlit("f"); } "f" },
    }
}

/// Appends the two hex digits of `b`.
fn push_hex2(s: &mut String, b: u8)
    ensures
        final(s)@ == old(s)@ + hex2(b),
{
    s.append(hex_digit_str(b / 16));
    s.append(hex_digit_str(b % 16));
    assert(final(s)@ =~= old(s)@ + hex2(b));
}

fn colon() -> (r: &'static str)
    ensures
        r@ == seq![':'],
{
    proof { reveal_strlit(":"); }
    ":"
}

/// The PCI location `bus:dev:func` of a device.
pub fn device_location(bus: u8, dev: u8, func: u8) -> (r: String)
    ensures
        r@ == location_spec(bus, dev, func),
{
    let mut s = String::new();
    push_hex2(&mut s, bus);
    s.append(colon());
    push_hex2(&mut s, dev);
    s.append(colon());
    push_hex2(&mut s, func);
    assert(s@ =~= location_spec(bus, dev, func));
    s
}

/// `<prefix><bus>:<dev>:<func>`, e.g. the block server `blockdev.virtio.00:01:00`.
pub fn device_name(prefix: &str, bus: u8, dev: u8, func: u8) -> (r: String)
    ensures
        r@ == prefix@ + location_spec(bus, dev, func),
{
    let mut s = prefix.to_owned();
    let loc = device_location(bus, dev, func);
    s.append(loc.as_str());
    s
}

/// A MAC address as six colon-separated pairs of hex digits.
pub fn format_mac(mac: &[u8; 6]) -> (r: String)
    ensures
        r@ == hex2(mac@[0]) + seq![':'] + hex2(mac@[1]) + seq![':'] + hex2(mac@[2]) + seq![':'] + hex2(mac@[3])
            + seq![':'] + hex2(mac@[4]) + seq![':'] + hex2(mac@[5]),
{
    let mut s = String::new();
    push_hex2(&mut s, mac[0]);
    s.append(colon());
    push_hex2(&mut s, mac[1]);
    s.append(colon());
    push_hex2(&mut s, mac[2]);
    s.append(colon());
    push_hex2(&mut s, mac[3]);
    s.append(colon());
    push_hex2(&mut s, mac[4]);
    s.append(colon());
    push_hex2(&mut s, mac[5]);
    s
}

} // verus!
