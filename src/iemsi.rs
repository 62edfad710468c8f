//! IEMSI auto-login: the `EMSI_ICI` packet that answers the server's query.

use vstd::prelude::*;

use crate::crc::{crc32, crc32_of};

verus! {

/// An upper-case hex digit of a value below 16.
pub open spec fn hex_upper(n: u8) -> u8 {
    if n < 10 {
        (0x30 + n) as u8
    } else {
        (0x37 + n) as u8
    }
}

/// `v` as `n` upper-case hex digits, most significant first.
pub open spec fn hex_digits(v: nat, n: nat) -> Seq<u8>
    decreases n,
{
    if n == 0 {
        Seq::empty()
    } else {
        hex_digits(v / 16, (n - 1) as nat) + seq![hex_upper((v % 16) as u8)]
    }
}

/// One byte inside an EMSI field: `}` and `]` doubled; `\`, control bytes and bytes
/// above 126 as `\` and two hex digits; the rest as it is.
pub open spec fn emsi_unit(c: u8) -> Seq<u8> {
    if c == 0x7d || c == 0x5d {
        seq![c, c]
    } else if c < 0x20 || c >= 0x7f || c == 0x5c {
        seq![0x5cu8, hex_upper(c / 16), hex_upper(c % 16)]
    } else {
        seq![c]
    }
}

/// A field's text escaped for an EMSI packet.
pub open spec fn emsi_escape(s: Seq<u8>) -> Seq<u8>
    decreases s.len(),
{
    if s.len() == 0 {
        Seq::empty()
    } else {
        emsi_escape(s.drop_last()) + emsi_unit(s.last())
    }
}

/// A field in braces.
pub open spec fn braced(s: Seq<u8>) -> Seq<u8> {
    seq![0x7bu8] + s + seq![0x7du8]
}

/// The fixed fields that follow the password and birth date: terminal `ANSI,24,80,0`,
/// protocol ZMODEM, capabilities, requests, the software's name and version, and an
/// empty translation table.
pub open spec fn ici_fixed() -> Seq<u8> {
    seq![0x7bu8, 0x41u8, 0x4eu8, 0x53u8, 0x49u8, 0x2cu8, 0x32u8, 0x34u8, 0x2cu8, 0x38u8, 0x30u8, 0x2cu8, 0x30u8, 0x7du8, 0x7bu8, 0x5au8, 0x4du8, 0x4fu8, 0x7du8, 0x7bu8, 0x43u8, 0x48u8, 0x54u8, 0x2cu8, 0x54u8, 0x41u8, 0x42u8, 0x2cu8, 0x41u8, 0x53u8, 0x43u8, 0x49u8, 0x49u8, 0x38u8, 0x7du8, 0x7bu8, 0x48u8, 0x4fu8, 0x54u8, 0x2cu8, 0x4du8, 0x4fu8, 0x52u8, 0x45u8, 0x2cu8, 0x46u8, 0x53u8, 0x45u8, 0x44u8, 0x2cu8, 0x4eu8, 0x45u8, 0x57u8, 0x53u8, 0x2cu8, 0x43u8, 0x4cu8, 0x52u8, 0x7du8, 0x7bu8, 0x69u8, 0x63u8, 0x79u8, 0x5fu8, 0x74u8, 0x65u8, 0x72u8, 0x6du8, 0x2cu8, 0x30u8, 0x2eu8, 0x31u8, 0x2cu8, 0x52u8, 0x75u8, 0x73u8, 0x74u8, 0x7du8, 0x7bu8, 0x7du8]
}

/// The data of an `EMSI_ICI` packet: name and alias (both the user name), empty location
/// and phone fields, the password, an empty birth date, then the fixed fields.
pub open spec fn ici_data(user: Seq<u8>, password: Seq<u8>) -> Seq<u8> {
    braced(emsi_escape(user)) + braced(emsi_escape(user)) + braced(Seq::empty()) + braced(
        Seq::empty(),
    ) + braced(Seq::empty()) + braced(emsi_escape(password)) + braced(Seq::empty())
        + ici_fixed()
}

/// `EMSI_ICI`.
pub open spec fn ici_name() -> Seq<u8> {
    seq![0x45u8, 0x4du8, 0x53u8, 0x49u8, 0x5fu8, 0x49u8, 0x43u8, 0x49u8]
}

/// The packet: `**EMSI_ICI`, the data's length as four hex digits, the data, and the
/// CRC-32 of everything from `EMSI_ICI` on as eight hex digits.
pub open spec fn ici_packet(user: Seq<u8>, password: Seq<u8>) -> Seq<u8> {
    let d = ici_data(user, password);
    let body = ici_name() + hex_digits(d.len(), 4) + d;
    seq![0x2au8, 0x2au8] + body + hex_digits(crc32_of(body) as nat, 8)
}

fn push_hex(dst: &mut Vec<u8>, v: u64, n: u32)
    ensures
        final(dst)@ == old(dst)@ + hex_digits(v as nat, n as nat),
    decreases n,
{
    if n > 0 {
        push_hex(dst, v / 16, n - 1);
        let d = (v % 16) as u8;
        dst.push(if d < 10 { 0x30 + d } else { 0x37 + d });
        proof {
            assert(final(dst)@ =~= old(dst)@ + hex_digits(v as nat, n as nat));
        }
    } else {
        proof {
            assert(old(dst)@ + hex_digits(v as nat, 0) =~= old(dst)@);
        }
    }
}

fn push_escaped(dst: &mut Vec<u8>, s: &[u8])
    ensures
        final(dst)@ == old(dst)@ + emsi_escape(s@),
{
    let ghost start = dst@;
    let mut i: usize = 0;
    while i < s.len()
        invariant
            i <= s@.len(),
            dst@ == start + emsi_escape(s@.take(i as int)),
        decreases s@.len() - i,
    {
        let c = s[i];
        proof {
            assert(s@.take(i + 1).drop_last() =~= s@.take(i as int));
        }
        let ghost before = dst@;
        if c == 0x7d || c == 0x5d {
            dst.push(c);
            dst.push(c);
        } else if c < 0x20 || c >= 0x7f || c == 0x5c {
            dst.push(0x5c);
            let hi = c / 16;
            let lo = c % 16;
            dst.push(if hi < 10 { 0x30 + hi } else { 0x37 + hi });
            dst.push(if lo < 10 { 0x30 + lo } else { 0x37 + lo });
        } else {
            dst.push(c);
        }
        proof {
            assert(dst@ =~= before + emsi_unit(c));
        }
        i += 1;
    }
    proof {
        assert(s@.take(s@.len() as int) =~= s@);
    }
}

fn push_braced(dst: &mut Vec<u8>, s: &[u8])
    ensures
        final(dst)@ == old(dst)@ + braced(emsi_escape(s@)),
{
    dst.push(0x7b);
    push_escaped(dst, s);
    dst.push(0x7d);
    proof {
        assert(final(dst)@ =~= old(dst)@ + braced(emsi_escape(s@)));
    }
}

/// The `EMSI_ICI` packet for a user, or `None` where the data does not fit the four-digit
/// length field.
pub fn emsi_ici(user: &[u8], password: &[u8]) -> (r: Option<Vec<u8>>)
    ensures
        match r {
            Some(p) => ici_data(user@, password@).len() <= 0xffff && p@ == ici_packet(
                user@,
                password@,
            ),
            None => ici_data(user@, password@).len() > 0xffff,
        },
{
    let empty: [u8; 0] = [];
    let fixed: [u8; 80] = [0x7b, 0x41, 0x4e, 0x53, 0x49, 0x2c, 0x32, 0x34, 0x2c, 0x38, 0x30, 0x2c, 0x30, 0x7d, 0x7b, 0x5a, 0x4d, 0x4f, 0x7d, 0x7b, 0x43, 0x48, 0x54, 0x2c, 0x54, 0x41, 0x42, 0x2c, 0x41, 0x53, 0x43, 0x49, 0x49, 0x38, 0x7d, 0x7b, 0x48, 0x4f, 0x54, 0x2c, 0x4d, 0x4f, 0x52, 0x45, 0x2c, 0x46, 0x53, 0x45, 0x44, 0x2c, 0x4e, 0x45, 0x57, 0x53, 0x2c, 0x43, 0x4c, 0x52, 0x7d, 0x7b, 0x69, 0x63, 0x79, 0x5f, 0x74, 0x65, 0x72, 0x6d, 0x2c, 0x30, 0x2e, 0x31, 0x2c, 0x52, 0x75, 0x73, 0x74, 0x7d, 0x7b, 0x7d];
    let name: [u8; 8] = [0x45, 0x4d, 0x53, 0x49, 0x5f, 0x49, 0x43, 0x49];
    let mut d: Vec<u8> = Vec::new();
    push_braced(&mut d, user);
    push_braced(&mut d, user);
    push_braced(&mut d, &empty);
    push_braced(&mut d, &empty);
    push_braced(&mut d, &empty);
    push_braced(&mut d, password);
    push_braced(&mut d, &empty);
    d.extend_from_slice(&fixed);
    proof {
        assert(empty@ =~= Seq::<u8>::empty());
        assert(emsi_escape(Seq::<u8>::empty()) =~= Seq::<u8>::empty());
        assert(fixed@ =~= ici_fixed());
        assert(d@ =~= ici_data(user@, password@));
    }
    if d.len() > 0xffff {
        return None;
    }
    let mut body: Vec<u8> = Vec::new();
    body.extend_from_slice(&name);
    push_hex(&mut body, d.len() as u64, 4);
    body.extend_from_slice(d.as_slice());
    let c = crc32(body.as_slice());
    let mut p: Vec<u8> = Vec::new();
    p.push(0x2a);
    p.push(0x2a);
    p.extend_from_slice(body.as_slice());
    push_hex(&mut p, c as u64, 8);
    proof {
        assert(name@ =~= ici_name());
        assert(body@ =~= ici_name() + hex_digits(d@.len(), 4) + d@);
        assert(p@ =~= ici_packet(user@, password@));
    }
    Some(p)
}

} // verus!
