//! The hashing behind gradient noise: a fixed shuffle of the numbers 0 to 255,
//! and what is read from it for a cell of the noise lattice.
use vstd::prelude::*;

verus! {

/// The numbers 0 to 255, each once, in a fixed, scattered order.
pub const PERMUTATION: [u8; 256] = [
    151, 160, 137, 91, 90, 15, 131, 13, 201, 95, 96, 53, 194, 233, 7, 225,
    140, 36, 103, 30, 69, 142, 8, 99, 37, 240, 21, 10, 23, 190, 6, 148,
    247, 120, 234, 75, 0, 26, 197, 62, 94, 252, 219, 203, 117, 35, 11, 32,
    57, 177, 33, 88, 237, 149, 56, 87, 174, 20, 125, 136, 171, 168, 68, 175,
    74, 165, 71, 134, 139, 48, 27, 166, 77, 146, 158, 231, 83, 111, 229, 122,
    60, 211, 133, 230, 220, 105, 92, 41, 55, 46, 245, 40, 244, 102, 143, 54,
    65, 25, 63, 161, 1, 216, 80, 73, 209, 76, 132, 187, 208, 89, 18, 169,
    200, 196, 135, 130, 116, 188, 159, 86, 164, 100, 109, 198, 173, 186, 3, 64,
    52, 217, 226, 250, 124, 123, 5, 202, 38, 147, 118, 126, 255, 82, 85, 212,
    207, 206, 59, 227, 47, 16, 58, 17, 182, 189, 28, 42, 223, 183, 170, 213,
    119, 248, 152, 2, 44, 154, 163, 70, 221, 153, 101, 155, 167, 43, 172, 9,
    129, 22, 39, 253, 19, 98, 108, 110, 79, 113, 224, 232, 178, 185, 112, 104,
    218, 246, 97, 228, 251, 34, 242, 193, 238, 210, 144, 12, 191, 179, 162, 241,
    81, 51, 145, 235, 249, 14, 239, 107, 49, 192, 214, 31, 181, 199, 106, 157,
    184, 84, 204, 176, 115, 121, 50, 45, 127, 4, 150, 254, 138, 236, 205, 93,
    222, 114, 67, 29, 24, 72, 243, 141, 128, 195, 78, 66, 215, 61, 156, 180,
];

/// The entry of the shuffle at place `i`.
#[verifier::opaque]
pub open spec fn shuffled(i: u8) -> u8 {
    PERMUTATION[i as int]
}

/// The entry of the shuffle at place `i`.
pub fn p(i: u8) -> (r: u8)
    ensures
        r == PERMUTATION[i as int],
        r == shuffled(i),
{
    proof {
        reveal(shuffled);
    }
    PERMUTATION[i as usize]
}

/// `a + b` on bytes, counted round the shuffle: 255 is followed by 0.
pub open spec fn round_sum(a: u8, b: u8) -> u8 {
    ((a + b) % 256) as u8
}

/// What the shuffle gives for the eight corners of a lattice cell.
///
/// The first letter says whether the corner lies at the cell's own `x` (`a`) or
/// one further (`b`), the second the same for `y`, and the digit for `z`.
#[derive(Clone, Copy, Debug, PartialEq, Eq, Structural)]
pub struct CornerHashes {
    pub aa0: u8,
    pub aa1: u8,
    pub ab0: u8,
    pub ab1: u8,
    pub ba0: u8,
    pub ba1: u8,
    pub bb0: u8,
    pub bb1: u8,
}

/// The hash of the lattice point `(x, y, z)`: the shuffle applied to `x`, to
/// that plus `y`, and to that plus `z`, all counted round the shuffle.
pub open spec fn lattice_hash(x: u8, y: u8, z: u8) -> u8 {
    shuffled(round_sum(z, shuffled(round_sum(y, shuffled(x)))))
}

/// The hashes of the eight corners of the cell at `(xi, yi, zi)`.
///
/// The corner at one further in `y` is found by adding one to the sum of the
/// step before, and the corner at one further in `z` likewise.
pub open spec fn corner_hashes_of(xi: u8, yi: u8, zi: u8) -> CornerHashes {
    let a0 = round_sum(yi, shuffled(xi));
    let b0 = round_sum(yi, shuffled(round_sum(xi, 1)));
    let aa = round_sum(zi, shuffled(a0));
    let ab = round_sum(zi, shuffled(round_sum(a0, 1)));
    let ba = round_sum(zi, shuffled(b0));
    let bb = round_sum(zi, shuffled(round_sum(b0, 1)));
    CornerHashes {
        aa0: shuffled(aa),
        aa1: shuffled(round_sum(aa, 1)),
        ab0: shuffled(ab),
        ab1: shuffled(round_sum(ab, 1)),
        ba0: shuffled(ba),
        ba1: shuffled(round_sum(ba, 1)),
        bb0: shuffled(bb),
        bb1: shuffled(round_sum(bb, 1)),
    }
}

/// `a + b` counted round the shuffle.
fn round_add(a: u8, b: u8) -> (r: u8)
    ensures
        r == round_sum(a, b),
{
    a.wrapping_add(b)
}

/// The hashes of the eight corners of the lattice cell at `(xi, yi, zi)`.
pub fn corner_hashes(xi: u8, yi: u8, zi: u8) -> (h: CornerHashes)
    ensures
        h == corner_hashes_of(xi, yi, zi),
{
    let a0 = round_add(yi, p(xi));
    let aa = round_add(zi, p(a0));
    let ab = round_add(zi, p(round_add(a0, 1)));
    let b0 = round_add(yi, p(round_add(xi, 1)));
    let ba = round_add(zi, p(b0));
    let bb = round_add(zi, p(round_add(b0, 1)));
    CornerHashes {
        aa0: p(aa),
        aa1: p(round_add(aa, 1)),
        ab0: p(ab),
        ab1: p(round_add(ab, 1)),
        ba0: p(ba),
        ba1: p(round_add(ba, 1)),
        bb0: p(bb),
        bb1: p(round_add(bb, 1)),
    }
}

/// One of the three axes.
#[derive(Clone, Copy, Debug, PartialEq, Eq, Structural)]
pub enum Axis {
    X,
    Y,
    Z,
}

/// The gradient that a hash selects, as the sum of two signed coordinates:
/// `first` and `second` say which coordinates, the two flags whether each is
/// taken with a minus sign.
#[derive(Clone, Copy, Debug, PartialEq, Eq, Structural)]
pub struct GradientTerms {
    pub first: Axis,
    pub first_negated: bool,
    pub second: Axis,
    pub second_negated: bool,
}

/// The gradient that the hash `h` selects.
///
/// The first coordinate is `x` for a hash below 8 and `y` otherwise; the
/// second is `y` for a hash below 4, `x` for the hashes 12 and 14, and `z`
/// otherwise. The lowest bit of the hash negates the first, the next bit the
/// second.
pub open spec fn gradient_terms_of(h: u8) -> GradientTerms {
    GradientTerms {
        first: if h < 8 {
            Axis::X
        } else {
            Axis::Y
        },
        first_negated: h % 2 == 1,
        second: if h < 4 {
            Axis::Y
        } else if h == 12 || h == 14 {
            Axis::X
        } else {
            Axis::Z
        },
        second_negated: (h / 2) % 2 == 1,
    }
}

/// The gradient that the hash `h` selects.
pub fn gradient_terms(h: u8) -> (g: GradientTerms)
    ensures
        g == gradient_terms_of(h),
{
    let first = if h < 8 {
        Axis::X
    } else {
        Axis::Y
    };
    let second = if h < 4 {
        Axis::Y
    } else if h == 12 || h == 14 {
        Axis::X
    } else {
        Axis::Z
    };
    GradientTerms { first, first_negated: h % 2 == 1, second, second_negated: (h / 2) % 2 == 1 }
}

/// The eight hashes of a cell are the hashes of its eight corner points:
/// adding one to a sum on the way is the same as starting one further along
/// that axis.
pub proof fn lemma_corners_hash_lattice_points(xi: u8, yi: u8, zi: u8)
    ensures
        corner_hashes_of(xi, yi, zi) == (CornerHashes {
            aa0: lattice_hash(xi, yi, zi),
            aa1: lattice_hash(xi, yi, round_sum(zi, 1)),
            ab0: lattice_hash(xi, round_sum(yi, 1), zi),
            ab1: lattice_hash(xi, round_sum(yi, 1), round_sum(zi, 1)),
            ba0: lattice_hash(round_sum(xi, 1), yi, zi),
            ba1: lattice_hash(round_sum(xi, 1), yi, round_sum(zi, 1)),
            bb0: lattice_hash(round_sum(xi, 1), round_sum(yi, 1), zi),
            bb1: lattice_hash(round_sum(xi, 1), round_sum(yi, 1), round_sum(zi, 1)),
        }),
{
    assert forall|a: u8, b: u8| round_sum(round_sum(a, b), 1) == round_sum(round_sum(a, 1), b) by {
    }
}

/// For each number 0 to 255, the place at which it stands in the shuffle.
pub open spec fn places() -> [u8; 256] {
    [
        36, 100, 163, 126, 233, 134, 30, 14, 22, 175, 27, 46, 203, 7, 213, 5,
        149, 151, 110, 180, 57, 26, 177, 28, 244, 97, 37, 70, 154, 243, 19, 219,
        47, 50, 197, 45, 17, 24, 136, 178, 91, 87, 155, 173, 164, 231, 89, 148,
        69, 216, 230, 209, 128, 11, 95, 88, 54, 48, 150, 146, 80, 253, 39, 98,
        127, 96, 251, 242, 62, 20, 167, 66, 245, 103, 64, 35, 105, 72, 250, 184,
        102, 208, 141, 76, 225, 142, 119, 55, 51, 109, 4, 3, 86, 239, 40, 9,
        10, 194, 181, 23, 121, 170, 93, 18, 191, 85, 222, 215, 182, 122, 183, 77,
        190, 185, 241, 228, 116, 44, 138, 160, 33, 229, 79, 133, 132, 58, 139, 232,
        248, 176, 115, 6, 106, 82, 67, 114, 59, 2, 236, 68, 16, 247, 21, 94,
        202, 210, 73, 137, 31, 53, 234, 0, 162, 169, 165, 171, 254, 223, 74, 118,
        1, 99, 206, 166, 120, 65, 71, 172, 61, 111, 158, 60, 174, 124, 56, 63,
        227, 49, 188, 205, 255, 220, 152, 157, 224, 189, 125, 107, 117, 153, 29, 204,
        217, 199, 12, 249, 113, 38, 123, 221, 112, 8, 135, 43, 226, 238, 145, 144,
        108, 104, 201, 81, 143, 159, 218, 252, 101, 129, 192, 42, 84, 168, 240, 156,
        186, 15, 130, 147, 195, 78, 83, 75, 187, 13, 34, 211, 237, 52, 200, 214,
        25, 207, 198, 246, 92, 90, 193, 32, 161, 212, 131, 196, 41, 179, 235, 140,
    ]
}

/// The entries at the places 0 to 31 stand where `places` says.
proof fn lemma_places_from_0(i: int)
    requires
        0 <= i < 32,
    ensures
        places()[PERMUTATION[i] as int] == i,
{
    assert(places()[PERMUTATION[0] as int] == 0);
    assert(places()[PERMUTATION[1] as int] == 1);
    assert(places()[PERMUTATION[2] as int] == 2);
    assert(places()[PERMUTATION[3] as int] == 3);
    assert(places()[PERMUTATION[4] as int] == 4);
    assert(places()[PERMUTATION[5] as int] == 5);
    assert(places()[PERMUTATION[6] as int] == 6);
    assert(places()[PERMUTATION[7] as int] == 7);
    assert(places()[PERMUTATION[8] as int] == 8);
    assert(places()[PERMUTATION[9] as int] == 9);
    assert(places()[PERMUTATION[10] as int] == 10);
    assert(places()[PERMUTATION[11] as int] == 11);
    assert(places()[PERMUTATION[12] as int] == 12);
    assert(places()[PERMUTATION[13] as int] == 13);
    assert(places()[PERMUTATION[14] as int] == 14);
    assert(places()[PERMUTATION[15] as int] == 15);
    assert(places()[PERMUTATION[16] as int] == 16);
    assert(places()[PERMUTATION[17] as int] == 17);
    assert(places()[PERMUTATION[18] as int] == 18);
    assert(places()[PERMUTATION[19] as int] == 19);
    assert(places()[PERMUTATION[20] as int] == 20);
    assert(places()[PERMUTATION[21] as int] == 21);
    assert(places()[PERMUTATION[22] as int] == 22);
    assert(places()[PERMUTATION[23] as int] == 23);
    assert(places()[PERMUTATION[24] as int] == 24);
    assert(places()[PERMUTATION[25] as int] == 25);
    assert(places()[PERMUTATION[26] as int] == 26);
    assert(places()[PERMUTATION[27] as int] == 27);
    assert(places()[PERMUTATION[28] as int] == 28);
    assert(places()[PERMUTATION[29] as int] == 29);
    assert(places()[PERMUTATION[30] as int] == 30);
    assert(places()[PERMUTATION[31] as int] == 31);
}

/// The entries at the places 32 to 63 stand where `places` says.
proof fn lemma_places_from_32(i: int)
    requires
        32 <= i < 64,
    ensures
        places()[PERMUTATION[i] as int] == i,
{
    assert(places()[PERMUTATION[32] as int] == 32);
    assert(places()[PERMUTATION[33] as int] == 33);
    assert(places()[PERMUTATION[34] as int] == 34);
    assert(places()[PERMUTATION[35] as int] == 35);
    assert(places()[PERMUTATION[36] as int] == 36);
    assert(places()[PERMUTATION[37] as int] == 37);
    assert(places()[PERMUTATION[38] as int] == 38);
    assert(places()[PERMUTATION[39] as int] == 39);
    assert(places()[PERMUTATION[40] as int] == 40);
    assert(places()[PERMUTATION[41] as int] == 41);
    assert(places()[PERMUTATION[42] as int] == 42);
    assert(places()[PERMUTATION[43] as int] == 43);
    assert(places()[PERMUTATION[44] as int] == 44);
    assert(places()[PERMUTATION[45] as int] == 45);
    assert(places()[PERMUTATION[46] as int] == 46);
    assert(places()[PERMUTATION[47] as int] == 47);
    assert(places()[PERMUTATION[48] as int] == 48);
    assert(places()[PERMUTATION[49] as int] == 49);
    assert(places()[PERMUTATION[50] as int] == 50);
    assert(places()[PERMUTATION[51] as int] == 51);
    assert(places()[PERMUTATION[52] as int] == 52);
    assert(places()[PERMUTATION[53] as int] == 53);
    assert(places()[PERMUTATION[54] as int] == 54);
    assert(places()[PERMUTATION[55] as int] == 55);
    assert(places()[PERMUTATION[56] as int] == 56);
    assert(places()[PERMUTATION[57] as int] == 57);
    assert(places()[PERMUTATION[58] as int] == 58);
    assert(places()[PERMUTATION[59] as int] == 59);
    assert(places()[PERMUTATION[60] as int] == 60);
    assert(places()[PERMUTATION[61] as int] == 61);
    assert(places()[PERMUTATION[62] as int] == 62);
    assert(places()[PERMUTATION[63] as int] == 63);
}

/// The entries at the places 64 to 95 stand where `places` says.
proof fn lemma_places_from_64(i: int)
    requires
        64 <= i < 96,
    ensures
        places()[PERMUTATION[i] as int] == i,
{
    assert(places()[PERMUTATION[64] as int] == 64);
    assert(places()[PERMUTATION[65] as int] == 65);
    assert(places()[PERMUTATION[66] as int] == 66);
    assert(places()[PERMUTATION[67] as int] == 67);
    assert(places()[PERMUTATION[68] as int] == 68);
    assert(places()[PERMUTATION[69] as int] == 69);
    assert(places()[PERMUTATION[70] as int] == 70);
    assert(places()[PERMUTATION[71] as int] == 71);
    assert(places()[PERMUTATION[72] as int] == 72);
    assert(places()[PERMUTATION[73] as int] == 73);
    assert(places()[PERMUTATION[74] as int] == 74);
    assert(places()[PERMUTATION[75] as int] == 75);
    assert(places()[PERMUTATION[76] as int] == 76);
    assert(places()[PERMUTATION[77] as int] == 77);
    assert(places()[PERMUTATION[78] as int] == 78);
    assert(places()[PERMUTATION[79] as int] == 79);
    assert(places()[PERMUTATION[80] as int] == 80);
    assert(places()[PERMUTATION[81] as int] == 81);
    assert(places()[PERMUTATION[82] as int] == 82);
    assert(places()[PERMUTATION[83] as int] == 83);
    assert(places()[PERMUTATION[84] as int] == 84);
    assert(places()[PERMUTATION[85] as int] == 85);
    assert(places()[PERMUTATION[86] as int] == 86);
    assert(places()[PERMUTATION[87] as int] == 87);
    assert(places()[PERMUTATION[88] as int] == 88);
    assert(places()[PERMUTATION[89] as int] == 89);
    assert(places()[PERMUTATION[90] as int] == 90);
    assert(places()[PERMUTATION[91] as int] == 91);
    assert(places()[PERMUTATION[92] as int] == 92);
    assert(places()[PERMUTATION[93] as int] == 93);
    assert(places()[PERMUTATION[94] as int] == 94);
    assert(places()[PERMUTATION[95] as int] == 95);
}

/// The entries at the places 96 to 127 stand where `places` says.
proof fn lemma_places_from_96(i: int)
    requires
        96 <= i < 128,
    ensures
        places()[PERMUTATION[i] as int] == i,
{
    assert(places()[PERMUTATION[96] as int] == 96);
    assert(places()[PERMUTATION[97] as int] == 97);
    assert(places()[PERMUTATION[98] as int] == 98);
    assert(places()[PERMUTATION[99] as int] == 99);
    assert(places()[PERMUTATION[100] as int] == 100);
    assert(places()[PERMUTATION[101] as int] == 101);
    assert(places()[PERMUTATION[102] as int] == 102);
    assert(places()[PERMUTATION[103] as int] == 103);
    assert(places()[PERMUTATION[104] as int] == 104);
    assert(places()[PERMUTATION[105] as int] == 105);
    assert(places()[PERMUTATION[106] as int] == 106);
    assert(places()[PERMUTATION[107] as int] == 107);
    assert(places()[PERMUTATION[108] as int] == 108);
    assert(places()[PERMUTATION[109] as int] == 109);
    assert(places()[PERMUTATION[110] as int] == 110);
    assert(places()[PERMUTATION[111] as int] == 111);
    assert(places()[PERMUTATION[112] as int] == 112);
    assert(places()[PERMUTATION[113] as int] == 113);
    assert(places()[PERMUTATION[114] as int] == 114);
    assert(places()[PERMUTATION[115] as int] == 115);
    assert(places()[PERMUTATION[116] as int] == 116);
    assert(places()[PERMUTATION[117] as int] == 117);
    assert(places()[PERMUTATION[118] as int] == 118);
    assert(places()[PERMUTATION[119] as int] == 119);
    assert(places()[PERMUTATION[120] as int] == 120);
    assert(places()[PERMUTATION[121] as int] == 121);
    assert(places()[PERMUTATION[122] as int] == 122);
    assert(places()[PERMUTATION[123] as int] == 123);
    assert(places()[PERMUTATION[124] as int] == 124);
    assert(places()[PERMUTATION[125] as int] == 125);
    assert(places()[PERMUTATION[126] as int] == 126);
    assert(places()[PERMUTATION[127] as int] == 127);
}

/// The entries at the places 128 to 159 stand where `places` says.
proof fn lemma_places_from_128(i: int)
    requires
        128 <= i < 160,
    ensures
        places()[PERMUTATION[i] as int] == i,
{
    assert(places()[PERMUTATION[128] as int] == 128);
    assert(places()[PERMUTATION[129] as int] == 129);
    assert(places()[PERMUTATION[130] as int] == 130);
    assert(places()[PERMUTATION[131] as int] == 131);
    assert(places()[PERMUTATION[132] as int] == 132);
    assert(places()[PERMUTATION[133] as int] == 133);
    assert(places()[PERMUTATION[134] as int] == 134);
    assert(places()[PERMUTATION[135] as int] == 135);
    assert(places()[PERMUTATION[136] as int] == 136);
    assert(places()[PERMUTATION[137] as int] == 137);
    assert(places()[PERMUTATION[138] as int] == 138);
    assert(places()[PERMUTATION[139] as int] == 139);
    assert(places()[PERMUTATION[140] as int] == 140);
    assert(places()[PERMUTATION[141] as int] == 141);
    assert(places()[PERMUTATION[142] as int] == 142);
    assert(places()[PERMUTATION[143] as int] == 143);
    assert(places()[PERMUTATION[144] as int] == 144);
    assert(places()[PERMUTATION[145] as int] == 145);
    assert(places()[PERMUTATION[146] as int] == 146);
    assert(places()[PERMUTATION[147] as int] == 147);
    assert(places()[PERMUTATION[148] as int] == 148);
    assert(places()[PERMUTATION[149] as int] == 149);
    assert(places()[PERMUTATION[150] as int] == 150);
    assert(places()[PERMUTATION[151] as int] == 151);
    assert(places()[PERMUTATION[152] as int] == 152);
    assert(places()[PERMUTATION[153] as int] == 153);
    assert(places()[PERMUTATION[154] as int] == 154);
    assert(places()[PERMUTATION[155] as int] == 155);
    assert(places()[PERMUTATION[156] as int] == 156);
    assert(places()[PERMUTATION[157] as int] == 157);
    assert(places()[PERMUTATION[158] as int] == 158);
    assert(places()[PERMUTATION[159] as int] == 159);
}

/// The entries at the places 160 to 191 stand where `places` says.
proof fn lemma_places_from_160(i: int)
    requires
        160 <= i < 192,
    ensures
        places()[PERMUTATION[i] as int] == i,
{
    assert(places()[PERMUTATION[160] as int] == 160);
    assert(places()[PERMUTATION[161] as int] == 161);
    assert(places()[PERMUTATION[162] as int] == 162);
    assert(places()[PERMUTATION[163] as int] == 163);
    assert(places()[PERMUTATION[164] as int] == 164);
    assert(places()[PERMUTATION[165] as int] == 165);
    assert(places()[PERMUTATION[166] as int] == 166);
    assert(places()[PERMUTATION[167] as int] == 167);
    assert(places()[PERMUTATION[168] as int] == 168);
    assert(places()[PERMUTATION[169] as int] == 169);
    assert(places()[PERMUTATION[170] as int] == 170);
    assert(places()[PERMUTATION[171] as int] == 171);
    assert(places()[PERMUTATION[172] as int] == 172);
    assert(places()[PERMUTATION[173] as int] == 173);
    assert(places()[PERMUTATION[174] as int] == 174);
    assert(places()[PERMUTATION[175] as int] == 175);
    assert(places()[PERMUTATION[176] as int] == 176);
    assert(places()[PERMUTATION[177] as int] == 177);
    assert(places()[PERMUTATION[178] as int] == 178);
    assert(places()[PERMUTATION[179] as int] == 179);
    assert(places()[PERMUTATION[180] as int] == 180);
    assert(places()[PERMUTATION[181] as int] == 181);
    assert(places()[PERMUTATION[182] as int] == 182);
    assert(places()[PERMUTATION[183] as int] == 183);
    assert(places()[PERMUTATION[184] as int] == 184);
    assert(places()[PERMUTATION[185] as int] == 185);
    assert(places()[PERMUTATION[186] as int] == 186);
    assert(places()[PERMUTATION[187] as int] == 187);
    assert(places()[PERMUTATION[188] as int] == 188);
    assert(places()[PERMUTATION[189] as int] == 189);
    assert(places()[PERMUTATION[190] as int] == 190);
    assert(places()[PERMUTATION[191] as int] == 191);
}

/// The entries at the places 192 to 223 stand where `places` says.
proof fn lemma_places_from_192(i: int)
    requires
        192 <= i < 224,
    ensures
        places()[PERMUTATION[i] as int] == i,
{
    assert(places()[PERMUTATION[192] as int] == 192);
    assert(places()[PERMUTATION[193] as int] == 193);
    assert(places()[PERMUTATION[194] as int] == 194);
    assert(places()[PERMUTATION[195] as int] == 195);
    assert(places()[PERMUTATION[196] as int] == 196);
    assert(places()[PERMUTATION[197] as int] == 197);
    assert(places()[PERMUTATION[198] as int] == 198);
    assert(places()[PERMUTATION[199] as int] == 199);
    assert(places()[PERMUTATION[200] as int] == 200);
    assert(places()[PERMUTATION[201] as int] == 201);
    assert(places()[PERMUTATION[202] as int] == 202);
    assert(places()[PERMUTATION[203] as int] == 203);
    assert(places()[PERMUTATION[204] as int] == 204);
    assert(places()[PERMUTATION[205] as int] == 205);
    assert(places()[PERMUTATION[206] as int] == 206);
    assert(places()[PERMUTATION[207] as int] == 207);
    assert(places()[PERMUTATION[208] as int] == 208);
    assert(places()[PERMUTATION[209] as int] == 209);
    assert(places()[PERMUTATION[210] as int] == 210);
    assert(places()[PERMUTATION[211] as int] == 211);
    assert(places()[PERMUTATION[212] as int] == 212);
    assert(places()[PERMUTATION[213] as int] == 213);
    assert(places()[PERMUTATION[214] as int] == 214);
    assert(places()[PERMUTATION[215] as int] == 215);
    assert(places()[PERMUTATION[216] as int] == 216);
    assert(places()[PERMUTATION[217] as int] == 217);
    assert(places()[PERMUTATION[218] as int] == 218);
    assert(places()[PERMUTATION[219] as int] == 219);
    assert(places()[PERMUTATION[220] as int] == 220);
    assert(places()[PERMUTATION[221] as int] == 221);
    assert(places()[PERMUTATION[222] as int] == 222);
    assert(places()[PERMUTATION[223] as int] == 223);
}

/// The entries at the places 224 to 255 stand where `places` says.
proof fn lemma_places_from_224(i: int)
    requires
        224 <= i < 256,
    ensures
        places()[PERMUTATION[i] as int] == i,
{
    assert(places()[PERMUTATION[224] as int] == 224);
    assert(places()[PERMUTATION[225] as int] == 225);
    assert(places()[PERMUTATION[226] as int] == 226);
    assert(places()[PERMUTATION[227] as int] == 227);
    assert(places()[PERMUTATION[228] as int] == 228);
    assert(places()[PERMUTATION[229] as int] == 229);
    assert(places()[PERMUTATION[230] as int] == 230);
    assert(places()[PERMUTATION[231] as int] == 231);
    assert(places()[PERMUTATION[232] as int] == 232);
    assert(places()[PERMUTATION[233] as int] == 233);
    assert(places()[PERMUTATION[234] as int] == 234);
    assert(places()[PERMUTATION[235] as int] == 235);
    assert(places()[PERMUTATION[236] as int] == 236);
    assert(places()[PERMUTATION[237] as int] == 237);
    assert(places()[PERMUTATION[238] as int] == 238);
    assert(places()[PERMUTATION[239] as int] == 239);
    assert(places()[PERMUTATION[240] as int] == 240);
    assert(places()[PERMUTATION[241] as int] == 241);
    assert(places()[PERMUTATION[242] as int] == 242);
    assert(places()[PERMUTATION[243] as int] == 243);
    assert(places()[PERMUTATION[244] as int] == 244);
    assert(places()[PERMUTATION[245] as int] == 245);
    assert(places()[PERMUTATION[246] as int] == 246);
    assert(places()[PERMUTATION[247] as int] == 247);
    assert(places()[PERMUTATION[248] as int] == 248);
    assert(places()[PERMUTATION[249] as int] == 249);
    assert(places()[PERMUTATION[250] as int] == 250);
    assert(places()[PERMUTATION[251] as int] == 251);
    assert(places()[PERMUTATION[252] as int] == 252);
    assert(places()[PERMUTATION[253] as int] == 253);
    assert(places()[PERMUTATION[254] as int] == 254);
    assert(places()[PERMUTATION[255] as int] == 255);
}

/// The shuffle holds every number 0 to 255 once: each number stands at the
/// place that `places` gives for it, so no two places hold the same number.
pub proof fn lemma_shuffle_holds_every_number_once()
    ensures
        forall|i: int| 0 <= i < 256 ==> places()[#[trigger] PERMUTATION[i] as int] == i,
        forall|i: int, j: int|
            0 <= i < 256 && 0 <= j < 256 && i != j ==> #[trigger] PERMUTATION[i]
                != #[trigger] PERMUTATION[j],
{
    assert forall|i: int| 0 <= i < 256 implies places()[#[trigger] PERMUTATION[i] as int] == i by {
        if i < 32 {
            lemma_places_from_0(i);
        } else if i < 64 {
            lemma_places_from_32(i);
        } else if i < 96 {
            lemma_places_from_64(i);
        } else if i < 128 {
            lemma_places_from_96(i);
        } else if i < 160 {
            lemma_places_from_128(i);
        } else if i < 192 {
            lemma_places_from_160(i);
        } else if i < 224 {
            lemma_places_from_192(i);
        } else {
            lemma_places_from_224(i);
        }
    }
}

} // verus!
