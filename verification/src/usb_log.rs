//! Text of the USB diagnostic log: hexadecimal words and register rows, and
//! names for the states of the USB bus.
use vstd::prelude::*;
use vstd::string::StringSliceAdditionalSpecFns;

verus! {

/// Longest label kept in front of a logged value.
pub const MAX_LABEL: usize = 50;

/// ASCII upper-case hexadecimal digit for `d` (0 to 15).
pub open spec fn hex_ascii(d: int) -> u8 {
    if d < 10 {
        (48 + d) as u8
    } else {
        (55 + d) as u8
    }
}

/// Place value of hex digit `i` of a 32-bit word, most significant first.
pub open spec fn place(i: int) -> int {
    if i == 0 {
        0x1000_0000
    } else if i == 1 {
        0x100_0000
    } else if i == 2 {
        0x10_0000
    } else if i == 3 {
        0x1_0000
    } else if i == 4 {
        0x1000
    } else if i == 5 {
        0x100
    } else if i == 6 {
        0x10
    } else {
        1
    }
}

/// The eight hex digits of `v`, most significant first.
pub open spec fn hex8_spec(v: u32) -> Seq<u8> {
    Seq::new(8, |i: int| hex_ascii((v as int / place(i)) % 16))
}

fn hex_byte(d: u32) -> (r: u8)
    requires
        d < 16,
    ensures
        r == hex_ascii(d as int),
{
    if d < 10 {
        (48 + d) as u8
    } else {
        (55 + d) as u8
    }
}

/// Append the eight hex digits of `v`.
fn push_hex8(out: &mut Vec<u8>, v: u32)
    ensures
        final(out)@ == old(out)@ + hex8_spec(v),
{
    let ghost start = out@;
    let mut p: u32 = 0x1000_0000;
    let mut i: usize = 0;
    while i < 8
        invariant
            0 <= i <= 8,
            p == place(i as int),
            out@ == start + hex8_spec(v).take(i as int),
        decreases 8 - i,
    {
        let d = (v / p) % 16;
        out.push(hex_byte(d));
        assert(hex8_spec(v).take(i as int + 1) =~= hex8_spec(v).take(i as int).push(
            hex_ascii(d as int),
        ));
        if i < 7 {
            p = p / 16;
        }
        i = i + 1;
    }
    assert(hex8_spec(v).take(8) =~= hex8_spec(v));
}

/// A log line: the label (cut to `MAX_LABEL` bytes) then `v` in eight hex
/// digits.
pub open spec fn hex_line_spec(label: Seq<u8>, v: u32) -> Seq<u8> {
    let n = if label.len() < MAX_LABEL {
        label.len() as int
    } else {
        MAX_LABEL as int
    };
    label.take(n) + hex8_spec(v)
}

/// The bytes logged for `label` and `v`.
pub fn hex_line(label: &str, v: u32) -> (r: Vec<u8>)
    ensures
        r@ == hex_line_spec(label.spec_bytes(), v),
{
    let lb = label.as_bytes();
    let n = if lb.len() < MAX_LABEL {
        lb.len()
    } else {
        MAX_LABEL
    };
    let mut out: Vec<u8> = Vec::new();
    let mut i: usize = 0;
    while i < n
        invariant
            n <= lb@.len(),
            0 <= i <= n,
            out@ == lb@.take(i as int),
        decreases n - i,
    {
        out.push(lb[i]);
        assert(lb@.take(i as int + 1) =~= lb@.take(i as int).push(lb@[i as int]));
        i = i + 1;
    }
    push_hex8(&mut out, v);
    out
}

/// A register row: `"  +"`, the offset's low byte in two hex digits,
/// `": "`, then four words in hex separated by spaces.
pub open spec fn hex_row_spec(off: u32, w0: u32, w1: u32, w2: u32, w3: u32) -> Seq<u8> {
    seq![32u8, 32u8, 43u8, hex_ascii((off as int / 16) % 16), hex_ascii(off as int % 16), 58u8, 32u8]
        + hex8_spec(w0) + seq![32u8] + hex8_spec(w1) + seq![32u8] + hex8_spec(w2) + seq![32u8]
        + hex8_spec(w3)
}

/// The bytes logged for a row of four words at offset `off`.
pub fn hex_row(off: u32, w0: u32, w1: u32, w2: u32, w3: u32) -> (r: Vec<u8>)
    ensures
        r@ == hex_row_spec(off, w0, w1, w2, w3),
        r@.len() == 42,
{
    let mut out: Vec<u8> = Vec::new();
    out.push(32u8);
    out.push(32u8);
    out.push(43u8);
    out.push(hex_byte((off / 16) % 16));
    out.push(hex_byte(off % 16));
    out.push(58u8);
    out.push(32u8);
    push_hex8(&mut out, w0);
    out.push(32u8);
    push_hex8(&mut out, w1);
    out.push(32u8);
    push_hex8(&mut out, w2);
    out.push(32u8);
    push_hex8(&mut out, w3);
    assert(out@ =~= hex_row_spec(off, w0, w1, w2, w3));
    out
}

/// Name of a USB bus state word: combinations of the hardware-idle bits
/// (0x111), activated (0x200), connected (0x020) and established (0x002).
pub open spec fn usb_state_name_spec(bits: i32) -> Seq<char> {
    if bits == 0x000 {
        "NONE"@
    } else if bits == 0x111 {
        "HW_IDLE"@
    } else if bits == 0x200 {
        "ACT"@
    } else if bits == 0x311 {
        "HW_IDLE+ACT"@
    } else if bits == 0x220 {
        "ACT+CON"@
    } else if bits == 0x331 {
        "HW_IDLE+ACT+CON"@
    } else if bits == 0x222 {
        "ACT+CON+EST"@
    } else if bits == 0x333 {
        "HW_IDLE+ACT+CON+EST"@
    } else if bits == 0x020 {
        "CON"@
    } else if bits == 0x131 {
        "HW_IDLE+CON"@
    } else if bits == 0x022 {
        "CON+EST"@
    } else if bits == 0x002 {
        "EST"@
    } else {
        "OTHER"@
    }
}

/// Name of a USB bus state word.
pub fn usb_state_name(bits: i32) -> (r: &'static str)
    ensures
        r@ == usb_state_name_spec(bits),
{
    match bits {
        0x000 => "NONE",
        0x111 => "HW_IDLE",
        0x200 => "ACT",
        0x311 => "HW_IDLE+ACT",
        0x220 => "ACT+CON",
        0x331 => "HW_IDLE+ACT+CON",
        0x222 => "ACT+CON+EST",
        0x333 => "HW_IDLE+ACT+CON+EST",
        0x020 => "CON",
        0x131 => "HW_IDLE+CON",
        0x022 => "CON+EST",
        0x002 => "EST",
        _ => "OTHER",
    }
}

} // verus!
