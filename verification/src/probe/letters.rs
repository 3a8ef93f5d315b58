//! The case of letters in text that comes as bytes.

use crate::text;
use vstd::prelude::*;

verus! {

// ---------------------------------------------------------------------------
// Letters
// ---------------------------------------------------------------------------

/// The number of the letter `u` in lower case. Covered are the letters below
/// U+10000 whose lower case takes as many bytes of UTF-8 as they do themselves;
/// everything else is its own lower case.
#[verifier::opaque]
pub open spec fn lower_code(u: u32) -> u32 {
    if u <= 0x7F {
        if 0x41 <= u <= 0x5A {
            (u + 0x20) as u32
        } else {
            u
        }
    } else if u % 2 == 0 && (0x0100 <= u <= 0x012E
        || 0x0132 <= u <= 0x0136
        || 0x014A <= u <= 0x0176
        || 0x0182 <= u <= 0x0184
        || u == 0x0198
        || 0x01A0 <= u <= 0x01A4
        || u == 0x01AC
        || u == 0x01B8
        || u == 0x01BC
        || u == 0x01C8
        || 0x01DE <= u <= 0x01EE
        || 0x01F2 <= u <= 0x01F4
        || 0x01F8 <= u <= 0x021E
        || 0x0222 <= u <= 0x0232
        || 0x0246 <= u <= 0x024E
        || 0x0370 <= u <= 0x0372
        || u == 0x0376
        || 0x03D8 <= u <= 0x03EE
        || u == 0x03FA
        || 0x0460 <= u <= 0x0480
        || 0x048A <= u <= 0x04BE
        || 0x04D0 <= u <= 0x052E
        || 0x1E00 <= u <= 0x1E94
        || 0x1EA0 <= u <= 0x1EFE
        || u == 0x2C60
        || u == 0x2C72
        || 0x2C80 <= u <= 0x2CE2
        || u == 0x2CF2
        || 0xA640 <= u <= 0xA66C
        || 0xA680 <= u <= 0xA69A
        || 0xA722 <= u <= 0xA72E
        || 0xA732 <= u <= 0xA76E
        || 0xA77E <= u <= 0xA786
        || 0xA790 <= u <= 0xA792
        || 0xA796 <= u <= 0xA7A8
        || 0xA7B4 <= u <= 0xA7C2
        || u == 0xA7CC
        || u == 0xA7CE
        || u == 0xA7D0
        || u == 0xA7D2
        || u == 0xA7D4
        || u == 0xA7DA
        || 0xA7D6 <= u <= 0xA7D8) {
        (u + 1) as u32
    } else if u % 2 == 1 && (0x0139 <= u <= 0x0147
        || u == 0x1C89
        || 0x0179 <= u <= 0x017D
        || u == 0x0187
        || u == 0x018B
        || u == 0x0191
        || u == 0x01A7
        || u == 0x01AF
        || 0x01B3 <= u <= 0x01B5
        || u == 0x01C5
        || 0x01CB <= u <= 0x01DB
        || u == 0x023B
        || u == 0x0241
        || u == 0x03F7
        || 0x04C1 <= u <= 0x04CD
        || u == 0x2183
        || 0x2C67 <= u <= 0x2C6B
        || u == 0x2C75
        || 0x2CEB <= u <= 0x2CED
        || 0xA779 <= u <= 0xA77B
        || u == 0xA78B
        || 0xA7C7 <= u <= 0xA7C9
        || u == 0xA7F5) {
        (u + 1) as u32
    } else if 0x1F08 <= u <= 0x1F0F
        || 0x1F18 <= u <= 0x1F1D
        || 0x1F28 <= u <= 0x1F2F
        || 0x1F38 <= u <= 0x1F3F
        || 0x1F48 <= u <= 0x1F4D
        || 0x1F68 <= u <= 0x1F6F
        || 0x1F88 <= u <= 0x1F8F
        || 0x1F98 <= u <= 0x1F9F
        || 0x1FA8 <= u <= 0x1FAF
        || 0x1FB8 <= u <= 0x1FB9
        || 0x1FD8 <= u <= 0x1FD9
        || 0x1FE8 <= u <= 0x1FE9 {
        (u - 8) as u32
    } else if 0x00C0 <= u <= 0x00D6
        || 0x00D8 <= u <= 0x00DE
        || 0x0391 <= u <= 0x03A1
        || 0x03A3 <= u <= 0x03AB
        || 0x0410 <= u <= 0x042F
        || 0xFF21 <= u <= 0xFF3A {
        (u + 32) as u32
    } else if u == 0x01C4
        || u == 0x01C7
        || u == 0x01CA
        || u == 0x01F1 {
        (u + 2) as u32
    } else if u == 0x01A6
        || u == 0x01A9
        || u == 0x01AE {
        (u + 218) as u32
    } else if 0x10A0 <= u <= 0x10C5
        || u == 0x10C7
        || u == 0x10CD {
        (u + 7264) as u32
    } else if u == 0x1FBC
        || u == 0x1FCC
        || u == 0x1FFC {
        (u - 9) as u32
    } else if 0x0189 <= u <= 0x018A
        || u == 0x0193 {
        (u + 205) as u32
    } else if u == 0x0196
        || u == 0x019C {
        (u + 211) as u32
    } else if u == 0x0220
        || 0x03FD <= u <= 0x03FF {
        (u - 130) as u32
    } else if u == 0x03CF
        || 0x13F0 <= u <= 0x13F5 {
        (u + 8) as u32
    } else if u == 0x03F9
        || u == 0x1FEC {
        (u - 7) as u32
    } else if 0x0531 <= u <= 0x0556
        || 0x2C00 <= u <= 0x2C2F {
        (u + 48) as u32
    } else if 0x1C90 <= u <= 0x1CBA
        || 0x1CBD <= u <= 0x1CBF {
        (u - 3008) as u32
    } else if u == 0x0178 {
        (u - 121) as u32
    } else if u == 0x0181 {
        (u + 210) as u32
    } else if u == 0x0186 {
        (u + 206) as u32
    } else if u == 0x018E {
        (u + 79) as u32
    } else if u == 0x018F {
        (u + 202) as u32
    } else if u == 0x0190 {
        (u + 203) as u32
    } else if u == 0x0194 {
        (u + 207) as u32
    } else if u == 0x0197 {
        (u + 209) as u32
    } else if u == 0x019D {
        (u + 213) as u32
    } else if u == 0x019F {
        (u + 214) as u32
    } else if 0x01B1 <= u <= 0x01B2 {
        (u + 217) as u32
    } else if u == 0x01B7 {
        (u + 219) as u32
    } else if u == 0x01F6 {
        (u - 97) as u32
    } else if u == 0x01F7 {
        (u - 56) as u32
    } else if u == 0x023D {
        (u - 163) as u32
    } else if u == 0x0243 {
        (u - 195) as u32
    } else if u == 0x0244 {
        (u + 69) as u32
    } else if u == 0x0245 {
        (u + 71) as u32
    } else if u == 0x037F {
        (u + 116) as u32
    } else if u == 0x0386 {
        (u + 38) as u32
    } else if 0x0388 <= u <= 0x038A {
        (u + 37) as u32
    } else if u == 0x038C {
        (u + 64) as u32
    } else if 0x038E <= u <= 0x038F {
        (u + 63) as u32
    } else if u == 0x03F4 {
        (u - 60) as u32
    } else if 0x0400 <= u <= 0x040F {
        (u + 80) as u32
    } else if u == 0x04C0 {
        (u + 15) as u32
    } else if 0x13A0 <= u <= 0x13EF {
        (u + 38864) as u32
    } else if u % 2 == 1 && 0x1F59 <= u <= 0x1F5F {
        (u - 8) as u32
    } else if 0x1FBA <= u <= 0x1FBB {
        (u - 74) as u32
    } else if 0x1FC8 <= u <= 0x1FCB {
        (u - 86) as u32
    } else if 0x1FDA <= u <= 0x1FDB {
        (u - 100) as u32
    } else if 0x1FEA <= u <= 0x1FEB {
        (u - 112) as u32
    } else if 0x1FF8 <= u <= 0x1FF9 {
        (u - 128) as u32
    } else if 0x1FFA <= u <= 0x1FFB {
        (u - 126) as u32
    } else if u == 0x2132 {
        (u + 28) as u32
    } else if 0x2160 <= u <= 0x216F {
        (u + 16) as u32
    } else if 0x24B6 <= u <= 0x24CF {
        (u + 26) as u32
    } else if u == 0x2C63 {
        (u - 3814) as u32
    } else if u == 0xA77D {
        (u - 35332) as u32
    } else if u == 0xA7B3 {
        (u + 928) as u32
    } else if u == 0xA7C4 {
        (u - 48) as u32
    } else if u == 0xA7C6 {
        (u - 35384) as u32
    } else {
        u
    }
}

/// The letter `c` in lower case.
pub open spec fn lower_char(c: char) -> char {
    lower_code(c as u32) as char
}

fn lower_number(u: u32) -> (l: u32)
    ensures
        l == lower_code(u),
{
    proof {
        reveal(lower_code);
    }
    if u <= 0x7F {
        if 0x41 <= u && u <= 0x5A {
            u + 0x20
        } else {
            u
        }
    } else if u % 2 == 0 && ((0x0100 <= u && u <= 0x012E)
        || (0x0132 <= u && u <= 0x0136)
        || (0x014A <= u && u <= 0x0176)
        || (0x0182 <= u && u <= 0x0184)
        || u == 0x0198
        || (0x01A0 <= u && u <= 0x01A4)
        || u == 0x01AC
        || u == 0x01B8
        || u == 0x01BC
        || u == 0x01C8
        || (0x01DE <= u && u <= 0x01EE)
        || (0x01F2 <= u && u <= 0x01F4)
        || (0x01F8 <= u && u <= 0x021E)
        || (0x0222 <= u && u <= 0x0232)
        || (0x0246 <= u && u <= 0x024E)
        || (0x0370 <= u && u <= 0x0372)
        || u == 0x0376
        || (0x03D8 <= u && u <= 0x03EE)
        || u == 0x03FA
        || (0x0460 <= u && u <= 0x0480)
        || (0x048A <= u && u <= 0x04BE)
        || (0x04D0 <= u && u <= 0x052E)
        || (0x1E00 <= u && u <= 0x1E94)
        || (0x1EA0 <= u && u <= 0x1EFE)
        || u == 0x2C60
        || u == 0x2C72
        || (0x2C80 <= u && u <= 0x2CE2)
        || u == 0x2CF2
        || (0xA640 <= u && u <= 0xA66C)
        || (0xA680 <= u && u <= 0xA69A)
        || (0xA722 <= u && u <= 0xA72E)
        || (0xA732 <= u && u <= 0xA76E)
        || (0xA77E <= u && u <= 0xA786)
        || (0xA790 <= u && u <= 0xA792)
        || (0xA796 <= u && u <= 0xA7A8)
        || (0xA7B4 <= u && u <= 0xA7C2)
        || u == 0xA7CC
        || u == 0xA7CE
        || u == 0xA7D0
        || u == 0xA7D2
        || u == 0xA7D4
        || u == 0xA7DA
        || (0xA7D6 <= u && u <= 0xA7D8)) {
        u + 1
    } else if u % 2 == 1 && ((0x0139 <= u && u <= 0x0147)
        || u == 0x1C89
        || (0x0179 <= u && u <= 0x017D)
        || u == 0x0187
        || u == 0x018B
        || u == 0x0191
        || u == 0x01A7
        || u == 0x01AF
        || (0x01B3 <= u && u <= 0x01B5)
        || u == 0x01C5
        || (0x01CB <= u && u <= 0x01DB)
        || u == 0x023B
        || u == 0x0241
        || u == 0x03F7
        || (0x04C1 <= u && u <= 0x04CD)
        || u == 0x2183
        || (0x2C67 <= u && u <= 0x2C6B)
        || u == 0x2C75
        || (0x2CEB <= u && u <= 0x2CED)
        || (0xA779 <= u && u <= 0xA77B)
        || u == 0xA78B
        || (0xA7C7 <= u && u <= 0xA7C9)
        || u == 0xA7F5) {
        u + 1
    } else if (0x1F08 <= u && u <= 0x1F0F)
        || (0x1F18 <= u && u <= 0x1F1D)
        || (0x1F28 <= u && u <= 0x1F2F)
        || (0x1F38 <= u && u <= 0x1F3F)
        || (0x1F48 <= u && u <= 0x1F4D)
        || (0x1F68 <= u && u <= 0x1F6F)
        || (0x1F88 <= u && u <= 0x1F8F)
        || (0x1F98 <= u && u <= 0x1F9F)
        || (0x1FA8 <= u && u <= 0x1FAF)
        || (0x1FB8 <= u && u <= 0x1FB9)
        || (0x1FD8 <= u && u <= 0x1FD9)
        || (0x1FE8 <= u && u <= 0x1FE9) {
        u - 8
    } else if (0x00C0 <= u && u <= 0x00D6)
        || (0x00D8 <= u && u <= 0x00DE)
        || (0x0391 <= u && u <= 0x03A1)
        || (0x03A3 <= u && u <= 0x03AB)
        || (0x0410 <= u && u <= 0x042F)
        || (0xFF21 <= u && u <= 0xFF3A) {
        u + 32
    } else if u == 0x01C4
        || u == 0x01C7
        || u == 0x01CA
        || u == 0x01F1 {
        u + 2
    } else if u == 0x01A6
        || u == 0x01A9
        || u == 0x01AE {
        u + 218
    } else if (0x10A0 <= u && u <= 0x10C5)
        || u == 0x10C7
        || u == 0x10CD {
        u + 7264
    } else if u == 0x1FBC
        || u == 0x1FCC
        || u == 0x1FFC {
        u - 9
    } else if (0x0189 <= u && u <= 0x018A)
        || u == 0x0193 {
        u + 205
    } else if u == 0x0196
        || u == 0x019C {
        u + 211
    } else if u == 0x0220
        || (0x03FD <= u && u <= 0x03FF) {
        u - 130
    } else if u == 0x03CF
        || (0x13F0 <= u && u <= 0x13F5) {
        u + 8
    } else if u == 0x03F9
        || u == 0x1FEC {
        u - 7
    } else if (0x0531 <= u && u <= 0x0556)
        || (0x2C00 <= u && u <= 0x2C2F) {
        u + 48
    } else if (0x1C90 <= u && u <= 0x1CBA)
        || (0x1CBD <= u && u <= 0x1CBF) {
        u - 3008
    } else if u == 0x0178 {
        u - 121
    } else if u == 0x0181 {
        u + 210
    } else if u == 0x0186 {
        u + 206
    } else if u == 0x018E {
        u + 79
    } else if u == 0x018F {
        u + 202
    } else if u == 0x0190 {
        u + 203
    } else if u == 0x0194 {
        u + 207
    } else if u == 0x0197 {
        u + 209
    } else if u == 0x019D {
        u + 213
    } else if u == 0x019F {
        u + 214
    } else if 0x01B1 <= u && u <= 0x01B2 {
        u + 217
    } else if u == 0x01B7 {
        u + 219
    } else if u == 0x01F6 {
        u - 97
    } else if u == 0x01F7 {
        u - 56
    } else if u == 0x023D {
        u - 163
    } else if u == 0x0243 {
        u - 195
    } else if u == 0x0244 {
        u + 69
    } else if u == 0x0245 {
        u + 71
    } else if u == 0x037F {
        u + 116
    } else if u == 0x0386 {
        u + 38
    } else if 0x0388 <= u && u <= 0x038A {
        u + 37
    } else if u == 0x038C {
        u + 64
    } else if 0x038E <= u && u <= 0x038F {
        u + 63
    } else if u == 0x03F4 {
        u - 60
    } else if 0x0400 <= u && u <= 0x040F {
        u + 80
    } else if u == 0x04C0 {
        u + 15
    } else if 0x13A0 <= u && u <= 0x13EF {
        u + 38864
    } else if u % 2 == 1 && 0x1F59 <= u && u <= 0x1F5F {
        u - 8
    } else if 0x1FBA <= u && u <= 0x1FBB {
        u - 74
    } else if 0x1FC8 <= u && u <= 0x1FCB {
        u - 86
    } else if 0x1FDA <= u && u <= 0x1FDB {
        u - 100
    } else if 0x1FEA <= u && u <= 0x1FEB {
        u - 112
    } else if 0x1FF8 <= u && u <= 0x1FF9 {
        u - 128
    } else if 0x1FFA <= u && u <= 0x1FFB {
        u - 126
    } else if u == 0x2132 {
        u + 28
    } else if 0x2160 <= u && u <= 0x216F {
        u + 16
    } else if 0x24B6 <= u && u <= 0x24CF {
        u + 26
    } else if u == 0x2C63 {
        u - 3814
    } else if u == 0xA77D {
        u - 35332
    } else if u == 0xA7B3 {
        u + 928
    } else if u == 0xA7C4 {
        u - 48
    } else if u == 0xA7C6 {
        u - 35384
    } else {
        u
    }
}

/// Lower case is in lower case, and takes as many bytes.
#[verifier::rlimit(50)]
proof fn lower_code_facts(u: u32)
    ensures
        lower_code(lower_code(u)) == lower_code(u),
        u <= 0x7F ==> lower_code(u) == if 0x41 <= u <= 0x5A {
            u + 0x20
        } else {
            u as int
        },
        0x80 <= u <= 0x7FF ==> 0x80 <= lower_code(u) <= 0x7FF,
        0x800 <= u <= 0xFFFF ==> 0x800 <= lower_code(u) <= 0xFFFF,
        u > 0xFFFF ==> lower_code(u) == u,
        !(0xD800 <= u <= 0xDFFF) ==> !(0xD800 <= lower_code(u) <= 0xDFFF),
{
    reveal(lower_code);
    let l = lower_code(u);
    assert(u <= 0x1FF ==> lower_code(l) == l) by (bit_vector)
        requires
            l == lower_code(u),
    ;
    assert(0x200 <= u <= 0x7FF ==> lower_code(l) == l) by (bit_vector)
        requires
            l == lower_code(u),
    ;
    assert(0x800 <= u <= 0x1FFF ==> lower_code(l) == l) by (bit_vector)
        requires
            l == lower_code(u),
    ;
    assert(0x2000 <= u ==> lower_code(l) == l) by (bit_vector)
        requires
            l == lower_code(u),
    ;
    assert(0x80 <= u <= 0x7FF ==> 0x80 <= lower_code(u) <= 0x7FF) by (bit_vector);
    assert(0x800 <= u <= 0xFFFF ==> 0x800 <= lower_code(u) <= 0xFFFF) by (bit_vector);
    assert(u > 0xFFFF ==> lower_code(u) == u) by (bit_vector);
    assert(!(0xD800 <= u <= 0xDFFF) ==> !(0xD800 <= lower_code(u) <= 0xDFFF)) by (bit_vector);
}

// ---------------------------------------------------------------------------
// Bytes
// ---------------------------------------------------------------------------

/// `b` continues a letter of several bytes.
pub open spec fn continues(b: u8) -> bool {
    0x80 <= b <= 0xBF
}

/// `b` starts a letter of two bytes.
pub open spec fn starts_two(b: u8) -> bool {
    0xC2 <= b <= 0xDF
}

/// `b` starts a letter of three bytes.
pub open spec fn starts_three(b: u8) -> bool {
    0xE0 <= b <= 0xEF
}

/// A letter of two bytes stands at `i`.
pub open spec fn two_at(s: Seq<u8>, i: int) -> bool {
    0 <= i && i + 1 < s.len() && starts_two(s[i]) && continues(s[i + 1])
}

/// A letter of three bytes stands at `i`.
pub open spec fn three_at(s: Seq<u8>, i: int) -> bool {
    0 <= i && i + 2 < s.len() && starts_three(s[i]) && continues(s[i + 1]) && continues(s[i + 2])
}

/// The number of the letter of two bytes at `i`, in lower case.
pub open spec fn lower_two(s: Seq<u8>, i: int) -> u32 {
    lower_code(((s[i] - 0xC0) * 64 + (s[i + 1] - 0x80)) as u32)
}

/// The number of the letter of three bytes at `i`, in lower case. A number that
/// would not take three bytes stays.
pub open spec fn lower_three(s: Seq<u8>, i: int) -> u32 {
    let u = ((s[i] - 0xE0) * 4096 + (s[i + 1] - 0x80) * 64 + (s[i + 2] - 0x80)) as u32;
    if u < 0x800 {
        u
    } else {
        lower_code(u)
    }
}

/// Byte `i` of `s` with upper case replaced by lower case, where `s` is text in
/// UTF-8. Bytes that form no letter stay.
pub open spec fn lower_byte(s: Seq<u8>, i: int) -> u8 {
    if two_at(s, i) {
        (0xC0 + lower_two(s, i) / 64) as u8
    } else if two_at(s, i - 1) {
        (0x80 + lower_two(s, i - 1) % 64) as u8
    } else if three_at(s, i) {
        (0xE0 + lower_three(s, i) / 4096) as u8
    } else if three_at(s, i - 1) {
        (0x80 + lower_three(s, i - 1) / 64 % 64) as u8
    } else if three_at(s, i - 2) {
        (0x80 + lower_three(s, i - 2) % 64) as u8
    } else if 0x41 <= s[i] <= 0x5A {
        (s[i] + 0x20) as u8
    } else {
        s[i]
    }
}

/// `s` in lower case.
pub open spec fn lowered(s: Seq<u8>) -> Seq<u8> {
    Seq::new(s.len(), |i: int| lower_byte(s, i))
}

proof fn lower_two_facts(s: Seq<u8>, i: int)
    requires
        two_at(s, i),
    ensures
        0x80 <= lower_two(s, i) <= 0x7FF,
        lower_code(lower_two(s, i)) == lower_two(s, i),
{
    lower_code_facts(((s[i] - 0xC0) * 64 + (s[i + 1] - 0x80)) as u32);
}

proof fn lower_three_facts(s: Seq<u8>, i: int)
    requires
        three_at(s, i),
    ensures
        lower_three(s, i) <= 0xFFFF,
        lower_three(s, i) >= 0x800 ==> lower_code(lower_three(s, i)) == lower_three(s, i),
{
    lower_code_facts(
        ((s[i] - 0xE0) * 4096 + (s[i + 1] - 0x80) * 64 + (s[i + 2] - 0x80)) as u32,
    );
}

/// Lowering keeps the kind of a byte.
proof fn kind_is_kept(s: Seq<u8>, i: int)
    requires
        0 <= i < s.len(),
    ensures
        continues(lower_byte(s, i)) == continues(s[i]),
        starts_two(lower_byte(s, i)) == starts_two(s[i]),
        starts_three(lower_byte(s, i)) == starts_three(s[i]),
        lower_byte(s, i) <= 0x7F <==> s[i] <= 0x7F,
{
    if two_at(s, i) {
        lower_two_facts(s, i);
    } else if two_at(s, i - 1) {
        lower_two_facts(s, i - 1);
    } else if three_at(s, i) {
        lower_three_facts(s, i);
    } else if three_at(s, i - 1) {
        lower_three_facts(s, i - 1);
    } else if three_at(s, i - 2) {
        lower_three_facts(s, i - 2);
    }
}

proof fn letters_are_kept(s: Seq<u8>, i: int)
    ensures
        two_at(lowered(s), i) == two_at(s, i),
        three_at(lowered(s), i) == three_at(s, i),
        two_at(s, i) ==> lower_two(lowered(s), i) == lower_two(s, i),
        three_at(s, i) ==> lower_three(lowered(s), i) == lower_three(s, i),
{
    let t = lowered(s);
    if 0 <= i < s.len() {
        kind_is_kept(s, i);
    }
    if 0 <= i + 1 < s.len() {
        kind_is_kept(s, i + 1);
    }
    if 0 <= i + 2 < s.len() {
        kind_is_kept(s, i + 2);
    }
    if two_at(s, i) {
        lower_two_facts(s, i);
        let l = lower_two(s, i);
        assert(t[i] == 0xC0 + l / 64);
        assert(t[i + 1] == 0x80 + l % 64);
        assert((t[i] - 0xC0) * 64 + (t[i + 1] - 0x80) == l);
    }
    if three_at(s, i) {
        lower_three_facts(s, i);
        let l = lower_three(s, i);
        assert(t[i] == 0xE0 + l / 4096);
        assert(t[i + 1] == 0x80 + l / 64 % 64);
        assert(t[i + 2] == 0x80 + l % 64);
        assert((t[i] - 0xE0) * 4096 + (t[i + 1] - 0x80) * 64 + (t[i + 2] - 0x80) == l);
    }
}

/// Lower case is already in lower case.
pub proof fn lowering_settles(s: Seq<u8>)
    ensures
        lowered(lowered(s)) == lowered(s),
{
    let once = lowered(s);
    assert forall|i: int| 0 <= i < s.len() implies lower_byte(once, i) == once[i] by {
        letters_are_kept(s, i);
        letters_are_kept(s, i - 1);
        letters_are_kept(s, i - 2);
        kind_is_kept(s, i);
    }
    assert(lowered(once) =~= once);
}

/// Where a letter starts, text can be cut before it is put into lower case.
pub proof fn lowering_in_parts(a: Seq<u8>, b: Seq<u8>)
    requires
        b.len() > 0 ==> !continues(b[0]),
    ensures
        lowered(a + b) == lowered(a) + lowered(b),
{
    let s = a + b;
    let n = a.len() as int;
    assert forall|i: int| 0 <= i < s.len() implies #[trigger] lower_byte(s, i) == (lowered(a)
        + lowered(b))[i] by {
        if i < n {
            letters_in_front(a, b, i);
            letters_in_front(a, b, i - 1);
            letters_in_front(a, b, i - 2);
        } else {
            letters_behind(a, b, i);
            letters_behind(a, b, i - 1);
            letters_behind(a, b, i - 2);
            assert(s[i] == b[i - n]);
        }
    }
    assert(lowered(s) =~= lowered(a) + lowered(b));
}

proof fn letters_in_front(a: Seq<u8>, b: Seq<u8>, i: int)
    requires
        b.len() > 0 ==> !continues(b[0]),
        i < a.len(),
    ensures
        two_at(a + b, i) == two_at(a, i),
        three_at(a + b, i) == three_at(a, i),
        two_at(a, i) ==> lower_two(a + b, i) == lower_two(a, i),
        three_at(a, i) ==> lower_three(a + b, i) == lower_three(a, i),
{
    let s = a + b;
    let n = a.len() as int;
    if b.len() > 0 {
        assert(s[n] == b[0]);
    }
}

proof fn letters_behind(a: Seq<u8>, b: Seq<u8>, i: int)
    requires
        b.len() > 0,
        !continues(b[0]),
        i + 2 >= a.len(),
        i < a.len() + b.len(),
    ensures
        i >= a.len() ==> two_at(a + b, i) == two_at(b, i - a.len()),
        i >= a.len() ==> three_at(a + b, i) == three_at(b, i - a.len()),
        i < a.len() && i + 1 >= a.len() ==> !two_at(a + b, i),
        i < a.len() && i + 1 >= a.len() ==> !three_at(a + b, i),
        i < a.len() && i + 2 >= a.len() ==> !three_at(a + b, i),
        two_at(b, i - a.len()) ==> lower_two(a + b, i) == lower_two(b, i - a.len()),
        three_at(b, i - a.len()) ==> lower_three(a + b, i) == lower_three(b, i - a.len()),
{
    let s = a + b;
    let n = a.len() as int;
    assert(s[n] == b[0]);
    if i >= n {
        assert(s[i] == b[i - n]);
    }
}

/// Puts text into lower case.
pub fn lower_case(s: &[u8]) -> (lower: Vec<u8>)
    ensures
        lower@ == lowered(s@),
{
    let len: usize = s.len();
    let mut lower: Vec<u8> = Vec::new();
    let mut i: usize = 0;
    while i < len
        invariant
            i <= len,
            len == s.len(),
            lower@ == lowered(s@).take(i as int),
            !two_at(s@, i - 1),
            !three_at(s@, i - 1),
            !three_at(s@, i - 2),
        decreases len - i,
    {
        let b: u8 = s[i];
        if 0xC2 <= b && b <= 0xDF && len - i >= 2 && 0x80 <= s[i + 1] && s[i + 1] <= 0xBF {
            let l: u32 = lower_number((b as u32 - 0xC0) * 64 + (s[i + 1] as u32 - 0x80));
            proof {
                lower_two_facts(s@, i as int);
            }
            lower.push((0xC0 + l / 64) as u8);
            lower.push((0x80 + l % 64) as u8);
            i += 2;
            assert(lower@ =~= lowered(s@).take(i as int));
        } else if 0xE0 <= b && b <= 0xEF && len - i >= 3 && 0x80 <= s[i + 1] && s[i + 1] <= 0xBF
            && 0x80 <= s[i + 2] && s[i + 2] <= 0xBF {
            let u: u32 = (b as u32 - 0xE0) * 4096 + (s[i + 1] as u32 - 0x80) * 64 + (s[i + 2] as u32
                - 0x80);
            let l: u32 = if u < 0x800 {
                u
            } else {
                lower_number(u)
            };
            proof {
                lower_three_facts(s@, i as int);
            }
            lower.push((0xE0 + l / 4096) as u8);
            lower.push((0x80 + l / 64 % 64) as u8);
            lower.push((0x80 + l % 64) as u8);
            i += 3;
            assert(lower@ =~= lowered(s@).take(i as int));
        } else {
            let c: u8 = if 0x41 <= b && b <= 0x5A {
                b + 0x20
            } else {
                b
            };
            lower.push(c);
            i += 1;
            assert(lower@ =~= lowered(s@).take(i as int));
        }
    }
    assert(lowered(s@).take(i as int) =~= lowered(s@));
    lower
}

// ---------------------------------------------------------------------------
// Text
// ---------------------------------------------------------------------------

/// The bytes of a text are whole letters: none starts with a continuation, and
/// none breaks off.
pub proof fn text_is_whole(chars: Seq<char>)
    ensures
        ({
            let bytes = vstd::utf8::encode_utf8(chars);
            &&& bytes.len() > 0 ==> !continues(bytes[0])
            &&& forall|i: int|
                0 <= i < bytes.len() && starts_two(#[trigger] bytes[i]) ==> two_at(bytes, i)
            &&& forall|i: int|
                0 <= i < bytes.len() && starts_three(#[trigger] bytes[i]) ==> three_at(bytes, i)
        }),
    decreases chars.len(),
{
    let bytes = vstd::utf8::encode_utf8(chars);
    if chars.len() > 0 {
        let first = vstd::utf8::encode_scalar(chars[0] as u32);
        let rest = vstd::utf8::encode_utf8(chars.drop_first());
        text_is_whole(chars.drop_first());
        bytes_of_letter(chars[0]);
        assert(bytes == first + rest);
        assert forall|i: int| 0 <= i < bytes.len() && starts_two(#[trigger] bytes[i]) implies two_at(
            bytes,
            i,
        ) by {
            if i >= first.len() {
                assert(bytes[i] == rest[i - first.len()]);
                assert(two_at(rest, i - first.len()));
            }
        }
        assert forall|i: int|
            0 <= i < bytes.len() && starts_three(#[trigger] bytes[i]) implies three_at(
            bytes,
            i,
        ) by {
            if i >= first.len() {
                assert(bytes[i] == rest[i - first.len()]);
                assert(three_at(rest, i - first.len()));
            }
        }
    }
}

/// The bytes of one letter, as numbers.
proof fn bytes_of_letter(c: char)
    ensures
        ({
            let u = c as u32;
            let e = vstd::utf8::encode_scalar(u);
            &&& u <= 0x7F ==> e == seq![u as u8]
            &&& 0x80 <= u <= 0x7FF ==> e == seq![(0xC0 + u / 64) as u8, (0x80 + u % 64) as u8]
                && two_at(e, 0)
            &&& 0x800 <= u <= 0xFFFF ==> e == seq![
                (0xE0 + u / 4096) as u8,
                (0x80 + u / 64 % 64) as u8,
                (0x80 + u % 64) as u8,
            ] && three_at(e, 0)
            &&& u > 0xFFFF ==> e.len() == 4 && e[0] >= 0xF0 && continues(e[1]) && continues(e[2])
                && continues(e[3])
        }),
{
    let u = c as u32;
    vstd::utf8::char_is_scalar(c);
    assert(u <= 0x7F ==> (u & 0x7F) as u8 == u as u8) by (bit_vector);
    assert(0x80 <= u <= 0x7FF ==> 0xC0u8 | ((u >> 6) & 0x1F) as u8 == 0xC0 + u / 64) by (bit_vector);
    assert(0x80u8 | (u & 0x3F) as u8 == 0x80 + u % 64) by (bit_vector);
    assert(0x80u8 | ((u >> 6) & 0x3F) as u8 == 0x80 + u / 64 % 64) by (bit_vector);
    assert(0x800 <= u <= 0xFFFF ==> 0xE0u8 | ((u >> 12) & 0x0F) as u8 == 0xE0 + u / 4096)
        by (bit_vector);
    assert(0xF0u8 | ((u >> 18) & 0x7) as u8 >= 0xF0) by (bit_vector);
    assert(0x80 <= 0x80u8 | ((u >> 12) & 0x3F) as u8 <= 0xBF) by (bit_vector);
}

/// Lowering the bytes of a text is lowering its letters.
pub proof fn lowering_is_by_letter(chars: Seq<char>)
    ensures
        lowered(vstd::utf8::encode_utf8(chars)) == vstd::utf8::encode_utf8(
            chars.map_values(|c: char| lower_char(c)),
        ),
    decreases chars.len(),
{
    let small = chars.map_values(|c: char| lower_char(c));
    let bytes = vstd::utf8::encode_utf8(chars);
    if chars.len() == 0 {
        assert(lowered(bytes) =~= vstd::utf8::encode_utf8(small));
    } else {
        let first = vstd::utf8::encode_scalar(chars[0] as u32);
        let rest = vstd::utf8::encode_utf8(chars.drop_first());
        lowering_is_by_letter(chars.drop_first());
        text_is_whole(chars.drop_first());
        lowering_in_parts(first, rest);
        lowering_one_letter(chars[0]);
        assert(small.drop_first() =~= chars.drop_first().map_values(|c: char| lower_char(c)));
    }
}

proof fn lowering_one_letter(c: char)
    ensures
        lowered(vstd::utf8::encode_scalar(c as u32)) == vstd::utf8::encode_scalar(
            lower_char(c) as u32,
        ),
{
    let u = c as u32;
    let l = lower_code(u);
    let e = vstd::utf8::encode_scalar(u);
    vstd::utf8::char_is_scalar(c);
    lower_code_facts(u);
    assert(lower_char(c) as u32 == l);
    bytes_of_letter(c);
    bytes_of_letter(lower_char(c));
    let small = vstd::utf8::encode_scalar(l);
    if 0x80 <= u <= 0x7FF {
        assert(lower_two(e, 0) == l);
        assert(!two_at(e, 1));
        assert(lowered(e) =~= small);
    } else if 0x800 <= u <= 0xFFFF {
        assert(lower_three(e, 0) == l);
        assert(lowered(e)[0] == 0xE0 + l / 4096);
        assert(lowered(e)[1] == 0x80 + l / 64 % 64);
        assert(lowered(e)[2] == 0x80 + l % 64);
        assert(lowered(e) =~= small);
    } else {
        assert(lowered(e) =~= small);
    }
}

/// Where a text stands in `body` once both are in lower case, it also stands
/// there when something is put in front of `body` and behind it.
pub proof fn surroundings_do_not_matter(
    front: Seq<u8>,
    body: Seq<u8>,
    back: Seq<u8>,
    chars: Seq<char>,
    i: int,
)
    requires
        vstd::utf8::encode_utf8(chars).len() > 0,
        text::occurs_at(lowered(body), lowered(vstd::utf8::encode_utf8(chars)), i),
    ensures
        text::occurs_at(
            lowered(front + body + back),
            lowered(vstd::utf8::encode_utf8(chars)),
            front.len() + i,
        ),
{
    let raw = vstd::utf8::encode_utf8(chars);
    let stub = lowered(raw);
    let m = raw.len() as int;
    let rest = body.skip(i);
    let all = front + body + back;
    text_is_whole(chars);
    assert forall|j: int| 0 <= j < m implies {
        &&& lowered(body)[i + j] == stub[j]
        &&& continues(#[trigger] rest[j]) == continues(raw[j])
        &&& starts_two(rest[j]) == starts_two(raw[j])
        &&& starts_three(rest[j]) == starts_three(raw[j])
    } by {
        assert(lowered(body).subrange(i, i + m)[j] == lowered(body)[i + j]);
        kind_is_kept(raw, j);
        kind_is_kept(body, i + j);
        assert(rest[j] == body[i + j]);
    }
    assert(!continues(rest[0]));
    // What is in front does not reach into the text.
    lowering_in_parts(body.take(i), rest);
    assert(body.take(i) + rest =~= body);
    lowering_in_parts(front + body.take(i), rest + back);
    assert((front + body.take(i)) + (rest + back) =~= all);
    // Neither does what is behind.
    assert forall|j: int| 0 <= j < m implies #[trigger] lower_byte(rest + back, j) == lower_byte(
        rest,
        j,
    ) by {
        whole_letters(rest, back, raw, j);
        whole_letters(rest, back, raw, j - 1);
        whole_letters(rest, back, raw, j - 2);
        assert((rest + back)[j] == rest[j]);
    }
    let start = front.len() + i;
    assert forall|j: int| 0 <= j < m implies lowered(all)[start + j] == #[trigger] stub[j] by {
        assert(lowered(all)[start + j] == lowered(rest + back)[j]);
        assert(lowered(rest + back)[j] == lower_byte(rest + back, j));
        assert(lowered(rest)[j] == lower_byte(rest, j));
        assert(lowered(body)[i + j] == lowered(rest)[j]);
        assert(continues(rest[j]) == continues(raw[j]));
    }
    assert(lowered(all).subrange(start, start + m) =~= stub);
}

proof fn whole_letters(rest: Seq<u8>, back: Seq<u8>, raw: Seq<u8>, j: int)
    requires
        raw.len() <= rest.len(),
        j < raw.len(),
        forall|i: int|
            0 <= i < raw.len() ==> starts_two(#[trigger] rest[i]) == starts_two(raw[i])
                && starts_three(rest[i]) == starts_three(raw[i]),
        forall|i: int| 0 <= i < raw.len() && starts_two(#[trigger] raw[i]) ==> two_at(raw, i),
        forall|i: int| 0 <= i < raw.len() && starts_three(#[trigger] raw[i]) ==> three_at(raw, i),
    ensures
        two_at(rest + back, j) == two_at(rest, j),
        three_at(rest + back, j) == three_at(rest, j),
        two_at(rest, j) ==> lower_two(rest + back, j) == lower_two(rest, j),
        three_at(rest, j) ==> lower_three(rest + back, j) == lower_three(rest, j),
{
    if 0 <= j {
        assert((rest + back)[j] == rest[j]);
        assert(starts_two(rest[j]) == starts_two(raw[j]));
    }
}

/// The capitals of the Latin, Greek, Cyrillic, Armenian, Georgian, Cherokee and
/// Glagolitic alphabets, and numerals and letters with a circle or of full width,
/// are lowered by the distance between the two cases; small letters, digits and
/// marks stay as they are, and so does everything from U+10000 on.
pub proof fn alphabets_are_lowered(u: u32)
    ensures
        0x41 <= u <= 0x5A ==> lower_code(u) == u + 32,
        u <= 0x40 || 0x5B <= u <= 0xBF ==> lower_code(u) == u,
        0xC0 <= u <= 0xDE && u != 0xD7 ==> lower_code(u) == u + 32,
        u == 0xD7 || 0xDF <= u <= 0xFF ==> lower_code(u) == u,
        0x391 <= u <= 0x3A9 && u != 0x3A2 ==> lower_code(u) == u + 32,
        0x3B1 <= u <= 0x3C9 ==> lower_code(u) == u,
        0x400 <= u <= 0x40F ==> lower_code(u) == u + 80,
        0x410 <= u <= 0x42F ==> lower_code(u) == u + 32,
        0x430 <= u <= 0x45F ==> lower_code(u) == u,
        0x531 <= u <= 0x556 ==> lower_code(u) == u + 48,
        0x561 <= u <= 0x586 ==> lower_code(u) == u,
        0x10A0 <= u <= 0x10C5 ==> lower_code(u) == u + 7264,
        0x13A0 <= u <= 0x13EF ==> lower_code(u) == u + 38864,
        0x2160 <= u <= 0x216F ==> lower_code(u) == u + 16,
        0x24B6 <= u <= 0x24CF ==> lower_code(u) == u + 26,
        0x2C00 <= u <= 0x2C2F ==> lower_code(u) == u + 48,
        0xFF21 <= u <= 0xFF3A ==> lower_code(u) == u + 32,
        0x1F08 <= u <= 0x1F0F || 0x1F28 <= u <= 0x1F2F || 0x1F68 <= u <= 0x1F6F ==> lower_code(u) == u - 8,
        0x3000 <= u <= 0x9FFF ==> lower_code(u) == u,
        u >= 0x1_0000 ==> lower_code(u) == u,
{
    reveal(lower_code);
    assert({
        &&& 0x41 <= u <= 0x5A ==> lower_code(u) == u + 32
        &&& u <= 0x40 || 0x5B <= u <= 0xBF ==> lower_code(u) == u
        &&& 0xC0 <= u <= 0xDE && u != 0xD7 ==> lower_code(u) == u + 32
        &&& u == 0xD7 || 0xDF <= u <= 0xFF ==> lower_code(u) == u
        &&& 0x391 <= u <= 0x3A9 && u != 0x3A2 ==> lower_code(u) == u + 32
        &&& 0x3B1 <= u <= 0x3C9 ==> lower_code(u) == u
        &&& 0x400 <= u <= 0x40F ==> lower_code(u) == u + 80
        &&& 0x410 <= u <= 0x42F ==> lower_code(u) == u + 32
        &&& 0x430 <= u <= 0x45F ==> lower_code(u) == u
        &&& 0x531 <= u <= 0x556 ==> lower_code(u) == u + 48
        &&& 0x561 <= u <= 0x586 ==> lower_code(u) == u
        &&& 0x10A0 <= u <= 0x10C5 ==> lower_code(u) == u + 7264
        &&& 0x13A0 <= u <= 0x13EF ==> lower_code(u) == u + 38864
        &&& 0x2160 <= u <= 0x216F ==> lower_code(u) == u + 16
        &&& 0x24B6 <= u <= 0x24CF ==> lower_code(u) == u + 26
        &&& 0x2C00 <= u <= 0x2C2F ==> lower_code(u) == u + 48
        &&& 0xFF21 <= u <= 0xFF3A ==> lower_code(u) == u + 32
        &&& 0x1F08 <= u <= 0x1F0F || 0x1F28 <= u <= 0x1F2F || 0x1F68 <= u <= 0x1F6F ==> lower_code(u) == u - 8
        &&& 0x3000 <= u <= 0x9FFF ==> lower_code(u) == u
        &&& u >= 0x1_0000 ==> lower_code(u) == u
    }) by (bit_vector);
}

/// In the extended Latin and Cyrillic alphabets, where a capital stands next to
/// its small letter, lowering moves by one place or not at all: of two letters
/// that stand side by side as a pair, both are lowered to the second.
pub proof fn pairs_are_lowered_to_the_second(u: u32)
    requires
        (u % 2 == 0 && (0x100 <= u <= 0x12E || 0x132 <= u <= 0x136 || 0x14A <= u <= 0x176 || 0x460
            <= u <= 0x480 || 0x48A <= u <= 0x4BE || 0x4D0 <= u <= 0x52E || 0x1E00 <= u <= 0x1E94
            || 0x1EA0 <= u <= 0x1EFE || 0x2C80 <= u <= 0x2CE2 || 0xA640 <= u <= 0xA66C || 0xA680
            <= u <= 0xA69A || 0xA722 <= u <= 0xA72E || 0xA732 <= u <= 0xA76E)) || (u % 2 == 1 && (
        0x139 <= u <= 0x147 || 0x179 <= u <= 0x17D || 0x1CD <= u <= 0x1DB || 0x4C1 <= u <= 0x4CD)),
    ensures
        lower_code(u) == u + 1,
        lower_code((u + 1) as u32) == u + 1,
{
    reveal(lower_code);
    assert((u % 2 == 0 && (0x100 <= u <= 0x12E || 0x132 <= u <= 0x136 || 0x14A <= u <= 0x176 || 0x460
        <= u <= 0x480 || 0x48A <= u <= 0x4BE || 0x4D0 <= u <= 0x52E || 0x1E00 <= u <= 0x1E94
        || 0x1EA0 <= u <= 0x1EFE || 0x2C80 <= u <= 0x2CE2 || 0xA640 <= u <= 0xA66C || 0xA680
        <= u <= 0xA69A || 0xA722 <= u <= 0xA72E || 0xA732 <= u <= 0xA76E)) || (u % 2 == 1 && (
    0x139 <= u <= 0x147 || 0x179 <= u <= 0x17D || 0x1CD <= u <= 0x1DB || 0x4C1 <= u <= 0x4CD)) ==> lower_code(u) == u + 1 && lower_code((u + 1) as u32) == u + 1) by (bit_vector);
}

/// Lowering keeps the length, and lowers ASCII capitals wherever they stand,
/// also between bytes that are no text. The bytes that start letters of four
/// bytes, or no letter at all, stay.
pub proof fn ascii_is_lowered_anywhere(s: Seq<u8>, i: int)
    requires
        0 <= i < s.len(),
    ensures
        lowered(s).len() == s.len(),
        0x41 <= s[i] <= 0x5A ==> lowered(s)[i] == s[i] + 32,
        s[i] <= 0x40 || 0x5B <= s[i] <= 0x7F ==> lowered(s)[i] == s[i],
        s[i] >= 0xF0 || s[i] == 0xC0 || s[i] == 0xC1 ==> lowered(s)[i] == s[i],
{
}

} // verus!
