//! The 9-bit substitution box and its inverse, as fixed 512-entry tables.
//!
//! The inverse table is derived from the forward table (entry `S[v]` maps
//! back to `v`); building the runtime table set additionally checks the two
//! tables against each other entry by entry, so decryption only ever runs
//! with a substitution that is a genuine bijection.
use vstd::prelude::*;

verus! {

/// Forward substitution over 9-bit values.
pub const SBOX: [u16; 512] = [
    0xb5, 0x63, 0x1a1, 0xc2, 0x1f7, 0xf8, 0x1d6, 0xc1, 0x40, 0x1c7, 0x19b, 0x19, 0x94, 0x64, 0xd0, 0x197,
    0x114, 0x1ca, 0x1a2, 0x1d1, 0x1ba, 0xaf, 0xa6, 0x127, 0x61, 0x90, 0x6a, 0x1fe, 0x1e6, 0x16f, 0xb9, 0x17f,
    0x11c, 0x8, 0x1c6, 0x84, 0xf1, 0xe2, 0x15f, 0xfe, 0x16e, 0x1be, 0x14b, 0x160, 0x1e2, 0x1ae, 0x1f8, 0xf6,
    0x1c0, 0x6f, 0xac, 0x1e, 0x108, 0x7e, 0xe9, 0xb4, 0x176, 0x195, 0x17c, 0x1c, 0x1b6, 0x11b, 0x12d, 0x46,
    0xd2, 0x117, 0x190, 0x111, 0xc5, 0x29, 0x30, 0x18c, 0x132, 0x0, 0x65, 0x66, 0x9e, 0x126, 0x137, 0x1dc,
    0x1b, 0x155, 0x1a3, 0x1b1, 0x2, 0x8a, 0x179, 0xee, 0x1bb, 0x26, 0x1f2, 0xe0, 0x45, 0xce, 0xf9, 0x1d4,
    0x69, 0x115, 0xa2, 0x10a, 0x4d, 0x14c, 0x16d, 0xf2, 0x4e, 0xe1, 0x194, 0x53, 0xad, 0x13, 0x1d2, 0x164,
    0x184, 0x148, 0xd8, 0x1ef, 0x2b, 0x175, 0x10c, 0x19a, 0x6d, 0x1e7, 0x119, 0x16c, 0x57, 0xb2, 0x1b8, 0x31,
    0x187, 0x15a, 0x1a, 0x1c5, 0x172, 0x2e, 0xb6, 0x150, 0x1d, 0xbf, 0x144, 0x62, 0x1bc, 0x1c1, 0x20, 0xdc,
    0x3, 0x1f5, 0x5e, 0x87, 0x10d, 0x1cb, 0xb, 0x186, 0x1ce, 0x2a, 0x9f, 0x97, 0x1a9, 0x116, 0x13b, 0xd,
    0xc7, 0x1d9, 0x131, 0x153, 0x196, 0x1e9, 0x1a6, 0xca, 0x3f, 0x192, 0x152, 0xa0, 0x181, 0x154, 0x166, 0x5d,
    0x9, 0x68, 0x141, 0x1ab, 0x1ea, 0xd7, 0x4, 0x16a, 0xbe, 0x1fa, 0xd5, 0x5b, 0xfc, 0x1a8, 0xf5, 0xfb,
    0xe, 0x15c, 0x7b, 0xff, 0x12f, 0x189, 0x2f, 0xc9, 0x170, 0x1aa, 0x1c9, 0x1c8, 0x11d, 0x14a, 0x34, 0x5,
    0x76, 0x19e, 0x163, 0x14f, 0x1bf, 0x1d0, 0x43, 0x106, 0x12a, 0xf4, 0x109, 0xa3, 0x59, 0x8b, 0x1b4, 0x180,
    0x1ee, 0x37, 0x104, 0x103, 0x28, 0x1f9, 0x1df, 0x18b, 0x125, 0x18e, 0x82, 0x49, 0x83, 0xc8, 0xdd, 0x60,
    0xc3, 0x92, 0x11, 0x191, 0x178, 0x120, 0x7a, 0x55, 0x8e, 0x17, 0x17e, 0x118, 0x10f, 0x147, 0xdb, 0x193,
    0xe8, 0x110, 0x134, 0x1f6, 0x1a0, 0x8c, 0x1c3, 0xcb, 0x149, 0x14, 0x8f, 0x1b0, 0x1b3, 0xb3, 0x9b, 0x1da,
    0x6b, 0x161, 0x11a, 0xcc, 0x7, 0xbc, 0xc6, 0x5c, 0x1c2, 0xde, 0x10e, 0x124, 0x1ed, 0x145, 0xe5, 0x70,
    0x158, 0x16b, 0x21, 0x2c, 0x27, 0xd3, 0x136, 0x11f, 0x1e4, 0x4f, 0xa1, 0x22, 0x96, 0x146, 0x18f, 0x4b,
    0x10b, 0x1fd, 0x42, 0x81, 0xa9, 0x67, 0x167, 0xfd, 0x39, 0x1b7, 0x17d, 0x6, 0xaa, 0x15b, 0x3a, 0x133,
    0x7c, 0x17a, 0x91, 0xab, 0x105, 0x72, 0x19d, 0x1cd, 0x1de, 0x6e, 0x173, 0x157, 0x3c, 0x130, 0x18, 0x1e3,
    0x1b9, 0xea, 0x113, 0x1cc, 0xfa, 0xf, 0x14e, 0x12b, 0x44, 0xf3, 0x56, 0x140, 0x1d5, 0x1b2, 0x121, 0x1a4,
    0xf7, 0xd9, 0x169, 0x95, 0x1ad, 0x16, 0x58, 0x100, 0x75, 0x15d, 0x2d, 0xe4, 0x93, 0x135, 0xd6, 0x99,
    0x7d, 0x71, 0x24, 0xf0, 0x4c, 0x162, 0x18d, 0x1ac, 0x156, 0x9a, 0x15e, 0x1f0, 0x1ff, 0xda, 0x9d, 0xed,
    0x13c, 0xeb, 0x198, 0x1dd, 0x3e, 0x52, 0x50, 0x1e5, 0x36, 0x1d8, 0x18a, 0x139, 0x1e8, 0x112, 0x11e, 0x1e0,
    0x128, 0xd1, 0x13f, 0x80, 0xc0, 0x13d, 0x1a7, 0x88, 0x1b5, 0xae, 0x165, 0xb0, 0x171, 0x51, 0x1f4, 0x107,
    0x5a, 0x143, 0x10, 0xd4, 0x7f, 0x5f, 0xcf, 0x6c, 0xc4, 0x142, 0x38, 0x13a, 0x12, 0x85, 0x12c, 0xdf,
    0x19c, 0x1db, 0x98, 0x138, 0x129, 0x73, 0x48, 0x188, 0x1ec, 0x1af, 0x35, 0x13e, 0xc, 0xa5, 0x123, 0x8d,
    0xb8, 0xa8, 0x77, 0x1fc, 0x14d, 0xba, 0x86, 0xec, 0x23, 0x32, 0x122, 0x174, 0x3d, 0x1, 0x1eb, 0x17b,
    0x199, 0x78, 0x41, 0x54, 0x9c, 0x1d3, 0x1bd, 0x1f3, 0x1fb, 0xb7, 0x79, 0x1cf, 0x182, 0x1a5, 0xa7, 0x47,
    0xb1, 0x89, 0xcd, 0x1d7, 0x168, 0xe7, 0x15, 0x25, 0xe6, 0x151, 0x33, 0x1f1, 0x159, 0x3b, 0xef, 0xbd,
    0x19f, 0x177, 0x1c4, 0xe3, 0x4a, 0xa4, 0x1f, 0x102, 0x185, 0xbb, 0x101, 0x183, 0x12e, 0xa, 0x74, 0x1e1,
];

/// Inverse substitution over 9-bit values.
pub const INV_SBOX: [u16; 512] = [
    0x49, 0x1cd, 0x54, 0x90, 0xb6, 0xcf, 0x13b, 0x114, 0x21, 0xb0, 0x1fd, 0x96, 0x1bc, 0x9f, 0xc0, 0x155,
    0x1a2, 0xf2, 0x1ac, 0x6d, 0x109, 0x1e6, 0x165, 0xf9, 0x14e, 0xb, 0x82, 0x50, 0x3b, 0x88, 0x33, 0x1f6,
    0x8e, 0x122, 0x12b, 0x1c8, 0x172, 0x1e7, 0x59, 0x124, 0xe4, 0x45, 0x99, 0x74, 0x123, 0x16a, 0x85, 0xc6,
    0x46, 0x7f, 0x1c9, 0x1ea, 0xce, 0x1ba, 0x188, 0xe1, 0x1aa, 0x138, 0x13e, 0x1ed, 0x14c, 0x1cc, 0x184, 0xa8,
    0x8, 0x1d2, 0x132, 0xd6, 0x158, 0x5c, 0x3f, 0x1df, 0x1b6, 0xeb, 0x1f4, 0x12f, 0x174, 0x64, 0x68, 0x129,
    0x186, 0x19d, 0x185, 0x6b, 0x1d3, 0xf7, 0x15a, 0x7c, 0x166, 0xdc, 0x1a0, 0xbb, 0x117, 0xaf, 0x92, 0x1a5,
    0xef, 0x18, 0x8b, 0x1, 0xd, 0x4a, 0x4b, 0x135, 0xb1, 0x60, 0x1a, 0x110, 0x1a7, 0x78, 0x149, 0x31,
    0x11f, 0x171, 0x145, 0x1b5, 0x1fe, 0x168, 0xd0, 0x1c2, 0x1d1, 0x1da, 0xf6, 0xc2, 0x140, 0x170, 0x35, 0x1a4,
    0x193, 0x133, 0xea, 0xec, 0x23, 0x1ad, 0x1c6, 0x93, 0x197, 0x1e1, 0x55, 0xdd, 0x105, 0x1bf, 0xf8, 0x10a,
    0x19, 0x142, 0xf1, 0x16c, 0xc, 0x163, 0x12c, 0x9b, 0x1b2, 0x16f, 0x179, 0x10e, 0x1d4, 0x17e, 0x4c, 0x9a,
    0xab, 0x12a, 0x62, 0xdb, 0x1f5, 0x1bd, 0x16, 0x1de, 0x1c1, 0x134, 0x13c, 0x143, 0x32, 0x6c, 0x199, 0x15,
    0x19b, 0x1e0, 0x7d, 0x10d, 0x37, 0x0, 0x86, 0x1d9, 0x1c0, 0x1e, 0x1c5, 0x1f9, 0x115, 0x1ef, 0xb8, 0x89,
    0x194, 0x7, 0x3, 0xf0, 0x1a8, 0x44, 0x116, 0xa0, 0xed, 0xc7, 0xa7, 0x107, 0x113, 0x1e2, 0x5d, 0x1a6,
    0xe, 0x191, 0x40, 0x125, 0x1a3, 0xba, 0x16e, 0xb5, 0x72, 0x161, 0x17d, 0xfe, 0x8f, 0xee, 0x119, 0x1af,
    0x5b, 0x69, 0x25, 0x1f3, 0x16b, 0x11e, 0x1e8, 0x1e5, 0x100, 0x36, 0x151, 0x181, 0x1c7, 0x17f, 0x57, 0x1ee,
    0x173, 0x24, 0x67, 0x159, 0xd9, 0xbe, 0x2f, 0x160, 0x5, 0x5e, 0x154, 0xbf, 0xbc, 0x137, 0x27, 0xc3,
    0x167, 0x1fa, 0x1f7, 0xe3, 0xe2, 0x144, 0xd7, 0x19f, 0x34, 0xda, 0x63, 0x130, 0x76, 0x94, 0x11a, 0xfc,
    0x101, 0x43, 0x18d, 0x152, 0x10, 0x61, 0x9d, 0x41, 0xfb, 0x7a, 0x112, 0x3d, 0x20, 0xcc, 0x18e, 0x127,
    0xf5, 0x15e, 0x1ca, 0x1be, 0x11b, 0xe8, 0x4d, 0x17, 0x190, 0x1b4, 0xd8, 0x157, 0x1ae, 0x3e, 0x1fc, 0xc4,
    0x14d, 0xa2, 0x48, 0x13f, 0x102, 0x16d, 0x126, 0x4e, 0x1b3, 0x18b, 0x1ab, 0x9e, 0x180, 0x195, 0x1bb, 0x192,
    0x15b, 0xb2, 0x1a9, 0x1a1, 0x8a, 0x11d, 0x12d, 0xfd, 0x71, 0x108, 0xcd, 0x2a, 0x65, 0x1c4, 0x156, 0xd3,
    0x87, 0x1e9, 0xaa, 0xa3, 0xad, 0x51, 0x178, 0x14b, 0x120, 0x1ec, 0x81, 0x13d, 0xc1, 0x169, 0x17a, 0x26,
    0x2b, 0x111, 0x175, 0xd2, 0x6f, 0x19a, 0xae, 0x136, 0x1e4, 0x162, 0xb7, 0x121, 0x7b, 0x66, 0x28, 0x1d,
    0xc8, 0x19c, 0x84, 0x14a, 0x1cb, 0x75, 0x38, 0x1f1, 0xf4, 0x56, 0x141, 0x1cf, 0x3a, 0x13a, 0xfa, 0x1f,
    0xdf, 0xac, 0x1dc, 0x1fb, 0x70, 0x1f8, 0x97, 0x80, 0x1b7, 0xc5, 0x18a, 0xe7, 0x47, 0x176, 0xe9, 0x12e,
    0x42, 0xf3, 0xa9, 0xff, 0x6a, 0x39, 0xa4, 0xf, 0x182, 0x1d0, 0x77, 0xa, 0x1b0, 0x146, 0xd1, 0x1f0,
    0x104, 0x2, 0x12, 0x52, 0x15f, 0x1dd, 0xa6, 0x196, 0xbd, 0x9c, 0xc9, 0xb3, 0x177, 0x164, 0x2d, 0x1b9,
    0x10b, 0x53, 0x15d, 0x10c, 0xde, 0x198, 0x3c, 0x139, 0x7e, 0x150, 0x14, 0x58, 0x8c, 0x1d6, 0x29, 0xd4,
    0x30, 0x8d, 0x118, 0x106, 0x1f2, 0x83, 0x22, 0x9, 0xcb, 0xca, 0x11, 0x95, 0x153, 0x147, 0x98, 0x1db,
    0xd5, 0x13, 0x6e, 0x1d5, 0x5f, 0x15c, 0x6, 0x1e3, 0x189, 0xa1, 0x10f, 0x1b1, 0x4f, 0x183, 0x148, 0xe6,
    0x18f, 0x1ff, 0x2c, 0x14f, 0x128, 0x187, 0x1c, 0x79, 0x18c, 0xa5, 0xb4, 0x1ce, 0x1b8, 0x11c, 0xe0, 0x73,
    0x17b, 0x1eb, 0x5a, 0x1d7, 0x19e, 0x91, 0x103, 0x4, 0x2e, 0xe5, 0xb9, 0x1d8, 0x1c3, 0x131, 0x1b, 0x17c,
];

} // verus!
