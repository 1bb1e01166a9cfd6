//! Magic packets.
//!
//! A magic packet is `ff` six times followed by the target MAC repeated sixteen
//! times: 102 bytes, or 108 with a six-byte SecureOn password. A network
//! interface matches it by that payload and pays no attention to the destination
//! address, so a unicast datagram to the sleeping machine's last known address
//! wakes it exactly as well as a broadcast.
//!
//! That detail carries real weight here, because iOS gates UDP broadcast behind
//! an entitlement a free developer account cannot get. Unicast-first is not a
//! fallback, it is the primary path, and it works as long as the router still
//! holds an ARP entry for the sleeping machine.
use crate::plugin::{quote, quoted};
use crate::plugins::wol::is_hex;
use crate::text::{chars_of, code_point, join2, texts};
use vstd::prelude::*;

verus! {

/// The value of a hexadecimal digit.
pub open spec fn hex_value(c: char) -> int {
    if '0' <= c <= '9' {
        c as int - 48
    } else if 'a' <= c <= 'f' {
        c as int - 87
    } else {
        c as int - 55
    }
}

/// The digits of a MAC, however it is punctuated.
pub open spec fn mac_digits(mac: Seq<char>) -> Seq<char> {
    mac.filter(|c: char| is_hex(c))
}

/// The six bytes that twelve digits write.
pub open spec fn mac_bytes(d: Seq<char>) -> Seq<u8> {
    Seq::new(6, |i: int| (hex_value(d[2 * i]) * 16 + hex_value(d[2 * i + 1])) as u8)
}

/// What is said of something that is not a MAC.
pub open spec fn not_a_mac(mac: Seq<char>) -> Seq<char> {
    quoted(mac) + " is not a MAC address"@
}

fn hex_digit(c: char) -> (r: Option<u8>)
    ensures
        r is Some <==> is_hex(c),
        r matches Some(v) ==> v == hex_value(c) && v < 16,
{
    let n: u32 = code_point(c);
    if 48 <= n && n <= 57 {
        Some((n - 48) as u8)
    } else if 97 <= n && n <= 102 {
        Some((n - 87) as u8)
    } else if 65 <= n && n <= 70 {
        Some((n - 55) as u8)
    } else {
        None
    }
}

/// Parse a MAC written with colons, dashes, or nothing at all.
pub fn parse_mac(mac: &str) -> (r: Result<[u8; 6], String>)
    ensures
        match r {
            Ok(m) => mac_digits(mac@).len() == 12 && m@ == mac_bytes(mac_digits(mac@)),
            Err(e) => mac_digits(mac@).len() != 12 && e@ == not_a_mac(mac@),
        },
{
    let all = chars_of(mac);
    let mut hex: Vec<u8> = Vec::new();
    let ghost test = |c: char| is_hex(c);
    proof {
        reveal(Seq::filter);
        assert(all@.take(0) =~= Seq::<char>::empty());
    }
    for i in 0..all.len()
        invariant
            all@ == mac@,
            test == (|c: char| is_hex(c)),
            hex@.len() == all@.take(i as int).filter(test).len(),
            forall|k: int|
                0 <= k < hex@.len() ==> #[trigger] hex@[k] == hex_value(
                    all@.take(i as int).filter(test)[k],
                ) && hex@[k] < 16,
    {
        proof {
            reveal(Seq::filter);
            assert(all@.take(i + 1).drop_last() =~= all@.take(i as int));
            assert(all@.take(i + 1).last() == all@[i as int]);
        }
        match hex_digit(all[i]) {
            Some(v) => {
                hex.push(v);
            },
            None => {},
        }
    }
    assert(all@.take(all@.len() as int) =~= all@);
    if hex.len() != 12 {
        return Err(join2(quote(mac).as_str(), " is not a MAC address"));
    }
    let mut out: [u8; 6] = [0u8;6];
    for i in 0..6
        invariant
            hex@.len() == 12,
            mac_digits(mac@).len() == 12,
            forall|k: int|
                0 <= k < 12 ==> #[trigger] hex@[k] == hex_value(mac_digits(mac@)[k]) && hex@[k] < 16,
            forall|k: int| 0 <= k < i ==> out@[k] == mac_bytes(mac_digits(mac@))[k],
    {
        let a: u8 = hex[2 * i];
        let b: u8 = hex[2 * i + 1];
        assert((a << 4u8) | b == a * 16 + b) by (bit_vector)
            requires
                a < 16,
                b < 16,
        ;
        out[i] = (a << 4) | b;
    }
    assert(out@ =~= mac_bytes(mac_digits(mac@)));
    Ok(out)
}

/// `n` times the same bytes.
pub open spec fn repeated(b: Seq<u8>, n: nat) -> Seq<u8>
    decreases n,
{
    if n == 0 {
        Seq::empty()
    } else {
        repeated(b, (n - 1) as nat) + b
    }
}

/// The magic packet for a MAC.
pub open spec fn magic(mac: Seq<u8>, secure_on: Option<Seq<u8>>) -> Seq<u8> {
    seq![0xffu8, 0xff, 0xff, 0xff, 0xff, 0xff] + repeated(mac, 16) + match secure_on {
        Some(p) => p,
        None => Seq::empty(),
    }
}

fn put_six(out: &mut Vec<u8>, b: &[u8; 6])
    ensures
        final(out)@ == old(out)@ + b@,
{
    for i in 0..6
        invariant
            out@ == old(out)@ + b@.take(i as int),
    {
        out.push(b[i]);
        assert(b@.take(i + 1) =~= b@.take(i as int).push(b@[i as int]));
        assert(out@ =~= old(out)@ + b@.take(i + 1));
    }
    assert(b@.take(6) =~= b@);
}

/// Build the packet. `secure_on` is the optional six-byte password some network
/// interfaces require before they will act on one.
pub fn build(mac: [u8; 6], secure_on: Option<[u8; 6]>) -> (packet: Vec<u8>)
    ensures
        packet@ == magic(
            mac@,
            match secure_on {
                Some(p) => Some(p@),
                None => None,
            },
        ),
{
    let mut packet: Vec<u8> = Vec::new();
    let ones: [u8; 6] = [0xff, 0xff, 0xff, 0xff, 0xff, 0xff];
    put_six(&mut packet, &ones);
    let ghost start = seq![0xffu8, 0xff, 0xff, 0xff, 0xff, 0xff];
    assert(packet@ =~= start + repeated(mac@, 0));
    for i in 0..16
        invariant
            packet@ == start + repeated(mac@, i as nat),
    {
        put_six(&mut packet, &mac);
        assert(packet@ =~= start + repeated(mac@, (i + 1) as nat));
    }
    match secure_on {
        Some(password) => {
            put_six(&mut packet, &password);
        },
        None => {
            assert(packet@ + Seq::<u8>::empty() =~= packet@);
        },
    }
    packet
}

proof fn repeated_has(b: Seq<u8>, n: nat, i: int)
    requires
        b.len() == 6,
        0 <= i < 6 * n,
    ensures
        repeated(b, n).len() == 6 * n,
        repeated(b, n)[i] == b[i % 6],
    decreases n,
{
    repeated_len(b, n);
    if n > 0 {
        let rest = (n - 1) as nat;
        repeated_len(b, rest);
        if i < 6 * rest {
            repeated_has(b, rest, i);
        } else {
            assert(i % 6 == i - 6 * rest);
        }
    }
}

proof fn repeated_len(b: Seq<u8>, n: nat)
    ensures
        b.len() == 6 ==> repeated(b, n).len() == 6 * n,
    decreases n,
{
    if n > 0 {
        repeated_len(b, (n - 1) as nat);
    }
}

/// A magic packet is six times `ff` and the MAC sixteen times, 102 bytes, or 108
/// with a password at the end.
pub proof fn the_shape_the_hardware_looks_for(mac: Seq<u8>, secure_on: Option<Seq<u8>>, i: int)
    requires
        mac.len() == 6,
        secure_on matches Some(p) ==> p.len() == 6,
    ensures
        magic(mac, secure_on).len() == (if secure_on is Some {
            108int
        } else {
            102int
        }),
        0 <= i < 6 ==> magic(mac, secure_on)[i] == 0xff,
        6 <= i < 102 ==> magic(mac, secure_on)[i] == mac[i % 6],
        secure_on matches Some(p) ==> (102 <= i < 108 ==> magic(mac, secure_on)[i] == p[i - 102]),
{
    repeated_len(mac, 16);
    if 6 <= i < 102 {
        repeated_has(mac, 16, i - 6);
        assert((i - 6) % 6 == i % 6);
    }
}

/// The packets for a list of MACs.
pub open spec fn packets_for(macs: Seq<Seq<char>>) -> Seq<Seq<u8>> {
    macs.map_values(|m: Seq<char>| magic(mac_bytes(mac_digits(m)), None))
}

/// The bytes of each packet of a list.
pub open spec fn contents(packets: Seq<Vec<u8>>) -> Seq<Seq<u8>> {
    packets.map_values(|p: Vec<u8>| p@)
}

/// The packets to send, one for each MAC, or what is said of the first that is
/// not one.
pub fn packets(macs: &Vec<String>) -> (r: Result<Vec<Vec<u8>>, String>)
    ensures
        match r {
            Ok(p) => {
                &&& contents(p@) == packets_for(texts(macs@))
                &&& forall|k: int| 0 <= k < macs@.len() ==> mac_digits(#[trigger] macs@[k]@).len() == 12
            },
            Err(e) => exists|k: int|
                {
                    &&& 0 <= k < macs@.len()
                    &&& mac_digits(#[trigger] macs@[k]@).len() != 12
                    &&& e@ == not_a_mac(macs@[k]@)
                    &&& forall|j: int| 0 <= j < k ==> mac_digits(#[trigger] macs@[j]@).len() == 12
                },
        },
{
    let mut out: Vec<Vec<u8>> = Vec::new();
    for i in 0..macs.len()
        invariant
            out@.len() == i,
            forall|k: int| 0 <= k < i ==> mac_digits(#[trigger] macs@[k]@).len() == 12,
            forall|k: int| 0 <= k < i ==> (#[trigger] out@[k])@ == packets_for(texts(macs@))[k],
    {
        match parse_mac(macs[i].as_str()) {
            Ok(m) => {
                out.push(build(m, None));
                assert(texts(macs@)[i as int] == macs@[i as int]@);
            },
            Err(e) => {
                return Err(e);
            },
        }
    }
    assert(contents(out@) =~= packets_for(texts(macs@)));
    Ok(out)
}

/// What is said where no packet left at all.
pub const NOTHING_SENT: &'static str = "no wake packet could be sent";

/// What came of sending. A packet that left may still wake nothing, which is why
/// the caller confirms by polling for the machine to come back.
pub fn sent(count: usize) -> (r: Result<usize, String>)
    ensures
        match r {
            Ok(n) => n == count && count > 0,
            Err(e) => count == 0 && e@ == NOTHING_SENT@,
        },
{
    if count == 0 {
        Err(NOTHING_SENT.to_owned())
    } else {
        Ok(count)
    }
}

/// Twelve digits write six bytes, two to a byte, the higher half first; a digit is worth
/// what it is worth whichever case it is in.
pub proof fn a_mac_is_read_as_it_is_written(mac: &str, r: Result<[u8; 6], String>, i: int, c: char)
    requires
        call_ensures(parse_mac, (mac,), r),
        0 <= i < 6,
    ensures
        r is Ok <==> mac_digits(mac@).len() == 12,
        r matches Ok(m) ==> m@[i] == hex_value(mac_digits(mac@)[2 * i]) * 16 + hex_value(
            mac_digits(mac@)[2 * i + 1],
        ),
        r matches Err(e) ==> e@ == quoted(mac@) + " is not a MAC address"@,
        '0' <= c <= '9' ==> hex_value(c) == c as int - '0' as int,
        'a' <= c <= 'f' ==> hex_value(c) == 10 + c as int - 'a' as int,
        'A' <= c <= 'F' ==> hex_value(c) == 10 + c as int - 'A' as int,
{
    let d = mac_digits(mac@);
    if r is Ok {
        let m = r->Ok_0;
        assert(m@ == mac_bytes(d));
        mac.view().lemma_filter_pred(|c: char| is_hex(c), 2 * i);
        mac.view().lemma_filter_pred(|c: char| is_hex(c), 2 * i + 1);
        assert(is_hex(d[2 * i]) && is_hex(d[2 * i + 1]));
        assert(0 <= hex_value(d[2 * i]) < 16);
        assert(0 <= hex_value(d[2 * i + 1]) < 16);
        assert(mac_bytes(d)[i] == (hex_value(d[2 * i]) * 16 + hex_value(d[2 * i + 1])) as u8);
    }
}

/// Punctuation and white space in a MAC do not matter: the digits of a text are those of
/// its parts, a digit is one, and nothing else is.
pub proof fn only_the_digits_of_a_mac_count(a: Seq<char>, b: Seq<char>, c: char)
    ensures
        mac_digits(a + b) == mac_digits(a) + mac_digits(b),
        is_hex(c) ==> mac_digits(seq![c]) == seq![c],
        !is_hex(c) ==> mac_digits(seq![c]).len() == 0,
        is_hex(c) <==> '0' <= c <= '9' || 'a' <= c <= 'f' || 'A' <= c <= 'F',
{
    let test = |c: char| is_hex(c);
    Seq::filter_distributes_over_add(a, b, test);
    Seq::<char>::empty().lemma_filter_push(c, test);
    assert(Seq::<char>::empty().push(c) =~= seq![c]);
    reveal(Seq::filter);
}

/// A packet goes out for every MAC, in order; one that is none is said to be none, and
/// nothing goes out. That no packet left is a failure, and any that did is counted.
pub proof fn every_machine_gets_its_packet(
    macs: Vec<String>,
    r: Result<Vec<Vec<u8>>, String>,
    i: int,
    count: usize,
    q: Result<usize, String>,
)
    requires
        call_ensures(packets, (&macs,), r),
        call_ensures(sent, (count,), q),
    ensures
        r matches Ok(p) ==> p.len() == macs.len() && (0 <= i < macs.len() ==> p@[i]@ == magic(
            mac_bytes(mac_digits(macs@[i]@)),
            None,
        )),
        q is Ok <==> count > 0,
        q matches Ok(n) ==> n == count,
{
    if r is Ok {
        let p = r->Ok_0;
        assert(contents(p@) == packets_for(texts(macs@)));
        assert(contents(p@).len() == p@.len());
        assert(packets_for(texts(macs@)).len() == macs@.len());
        if 0 <= i < macs.len() {
            assert(contents(p@)[i] == p@[i]@);
            assert(texts(macs@)[i] == macs@[i]@);
        }
    }
}

} // verus!
