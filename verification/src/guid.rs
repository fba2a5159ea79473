//! Class and interface identifiers, and their canonical text form.
//!
//! An identifier is 16 bytes, grouped as one 32-bit, two 16-bit and eight
//! 8-bit fields, written as upper-case hex in five dash-separated groups.

use vstd::prelude::*;
use vstd::string::StringExecFns;

verus! {

/// A 128-bit class or interface identifier.
#[derive(Clone, Copy, Debug, PartialEq, Eq)]
pub struct Guid {
    pub data1: u32,
    pub data2: u16,
    pub data3: u16,
    pub data4: [u8; 8],
}

impl Guid {
    /// The identifier whose big-endian 128-bit value is `v`.
    pub fn from_u128(v: u128) -> (r: Guid)
        ensures
            r.data1 == (v >> 96) as u32,
            r.data2 == (v >> 80) as u16,
            r.data3 == (v >> 64) as u16,
            forall|i: int| 0 <= i < 8 ==> r.data4[i] == (v >> ((7 - i) * 8)) as u8,
    {
        let r = Guid {
            data1: (v >> 96) as u32,
            data2: (v >> 80) as u16,
            data3: (v >> 64) as u16,
            data4: [
                (v >> 56) as u8,
                (v >> 48) as u8,
                (v >> 40) as u8,
                (v >> 32) as u8,
                (v >> 24) as u8,
                (v >> 16) as u8,
                (v >> 8) as u8,
                (v >> 0) as u8,
            ],
        };
        proof {
            assert forall|i: int| 0 <= i < 8 implies r.data4[i] == (v >> ((7 - i) * 8)) as u8 by {
                assert(r.data4[0] == (v >> 56) as u8);
                assert(r.data4[1] == (v >> 48) as u8);
                assert(r.data4[2] == (v >> 40) as u8);
                assert(r.data4[3] == (v >> 32) as u8);
                assert(r.data4[4] == (v >> 24) as u8);
                assert(r.data4[5] == (v >> 16) as u8);
                assert(r.data4[6] == (v >> 8) as u8);
                assert(r.data4[7] == (v >> 0) as u8);
            }
        }
        r
    }
}

/// Whether two identifiers are the same.
pub fn guid_eq(a: &Guid, b: &Guid) -> (r: bool)
    ensures
        r == (*a == *b),
{
    let fields = a.data1 == b.data1 && a.data2 == b.data2 && a.data3 == b.data3;
    let mut tail = true;
    let mut i: usize = 0;
    while i < 8
        invariant
            0 <= i <= 8,
            tail == forall|j: int| 0 <= j < i ==> a.data4[j] == b.data4[j],
        decreases 8 - i,
    {
        if a.data4[i] != b.data4[i] {
            tail = false;
        }
        i = i + 1;
    }
    proof {
        broadcast use vstd::array::group_array_axioms;

        if fields && tail {
            assert(a.data4 =~= b.data4);
        }
    }
    fields && tail
}

/// The upper-case hex character for a value below 16.
pub open spec fn hex_digit(n: int) -> char {
    if n == 0 {
        '0'
    } else if n == 1 {
        '1'
    } else if n == 2 {
        '2'
    } else if n == 3 {
        '3'
    } else if n == 4 {
        '4'
    } else if n == 5 {
        '5'
    } else if n == 6 {
        '6'
    } else if n == 7 {
        '7'
    } else if n == 8 {
        '8'
    } else if n == 9 {
        '9'
    } else if n == 10 {
        'A'
    } else if n == 11 {
        'B'
    } else if n == 12 {
        'C'
    } else if n == 13 {
        'D'
    } else if n == 14 {
        'E'
    } else {
        'F'
    }
}

/// Two hex characters for a byte.
pub open spec fn hex2(v: int) -> Seq<char> {
    seq![hex_digit(v / 16), hex_digit(v % 16)]
}

/// Four hex characters for a 16-bit value.
pub open spec fn hex4(v: int) -> Seq<char> {
    hex2(v / 256) + hex2(v % 256)
}

/// Eight hex characters for a 32-bit value.
pub open spec fn hex8(v: int) -> Seq<char> {
    hex4(v / 65536) + hex4(v % 65536)
}

/// The canonical text of an identifier: five dash-separated upper-case hex
/// groups of 8, 4, 4, 4 and 12 characters.
pub open spec fn guid_text(g: Guid) -> Seq<char> {
    hex8(g.data1 as int) + seq!['-'] + hex4(g.data2 as int) + seq!['-'] + hex4(g.data3 as int)
        + seq!['-'] + hex2(g.data4[0] as int) + hex2(g.data4[1] as int) + seq!['-'] + hex2(
        g.data4[2] as int,
    ) + hex2(g.data4[3] as int) + hex2(g.data4[4] as int) + hex2(g.data4[5] as int) + hex2(
        g.data4[6] as int,
    ) + hex2(g.data4[7] as int)
}

/// The one-character string for a value below 16, as a hex digit.
fn hex_char_str(n: u8) -> (r: &'static str)
    requires
        n < 16,
    ensures
        r@ =~= seq![hex_digit(n as int)],
{
    proof {
        reveal_strlit("0");
        reveal_strlit("1");
        reveal_strlit("2");
        reveal_strlit("3");
        reveal_strlit("4");
        reveal_strlit("5");
        reveal_strlit("6");
        reveal_strlit("7");
        reveal_strlit("8");
        reveal_strlit("9");
        reveal_strlit("A");
        reveal_strlit("B");
        reveal_strlit("C");
        reveal_strlit("D");
        reveal_strlit("E");
        reveal_strlit("F");
    }
    match n {
        0 => "0",
        1 => "1",
        2 => "2",
        3 => "3",
        4 => "4",
        5 => "5",
        6 => "6",
        7 => "7",
        8 => "8",
        9 => "9",
        10 => "A",
        11 => "B",
        12 => "C",
        13 => "D",
        14 => "E",
        _ => "F",
    }
}

/// Appends the two hex characters of a byte.
fn push_hex2(out: &mut String, v: u8)
    ensures
        final(out)@ == old(out)@ + hex2(v as int),
{
    out.append(hex_char_str(v / 16));
    out.append(hex_char_str(v % 16));
    proof {
        assert(final(out)@ =~= old(out)@ + hex2(v as int));
    }
}

/// Appends the four hex characters of a 16-bit value.
fn push_hex4(out: &mut String, v: u16)
    ensures
        final(out)@ == old(out)@ + hex4(v as int),
{
    push_hex2(out, (v / 256) as u8);
    push_hex2(out, (v % 256) as u8);
    proof {
        assert(final(out)@ =~= old(out)@ + hex4(v as int));
    }
}

/// Appends the eight hex characters of a 32-bit value.
fn push_hex8(out: &mut String, v: u32)
    ensures
        final(out)@ == old(out)@ + hex8(v as int),
{
    push_hex4(out, (v / 65536) as u16);
    push_hex4(out, (v % 65536) as u16);
    proof {
        assert(final(out)@ =~= old(out)@ + hex8(v as int));
    }
}

/// Writes an identifier in its canonical dash-separated upper-case hex form.
pub fn format_guid(g: &Guid) -> (r: String)
    ensures
        r@ == guid_text(*g),
{
    let mut out = String::new();
    push_hex8(&mut out, g.data1);
    out.append("-");
    push_hex4(&mut out, g.data2);
    out.append("-");
    push_hex4(&mut out, g.data3);
    out.append("-");
    push_hex2(&mut out, g.data4[0]);
    push_hex2(&mut out, g.data4[1]);
    out.append("-");
    push_hex2(&mut out, g.data4[2]);
    push_hex2(&mut out, g.data4[3]);
    push_hex2(&mut out, g.data4[4]);
    push_hex2(&mut out, g.data4[5]);
    push_hex2(&mut out, g.data4[6]);
    push_hex2(&mut out, g.data4[7]);
    proof {
        reveal_strlit("-");
        assert(out@ =~= guid_text(*g));
    }
    out
}

} // verus!
