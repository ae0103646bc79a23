//! An eight by sixteen font.
use vstd::prelude::*;

verus! {

pub const GLYPH_WIDTH: usize = 8;
pub const GLYPH_HEIGHT: usize = 16;
/// The rows of the cell that stands for a byte without a glyph.
pub const OUTLINE_TOP: u64 = 0xff81_8181_8181_8181;
pub const OUTLINE_BOTTOM: u64 = 0x8181_8181_8181_81ff;

/// The upper and the lower eight rows of a glyph, the top one first.  Control
/// characters and the space are blank, and what is not ASCII is outlined.
pub open spec fn glyph_rows(ch: u8) -> (u64, u64) {
    match ch {
        0x21 => (0x0000_183c_3c3c_1818, 0x1800_1818_0000_0000),
        0x22 => (0x0066_6666_2400_0000, 0x0000_0000_0000_0000),
        0x23 => (0x0000_006c_6cfe_6c6c, 0x6cfe_6c6c_0000_0000),
        0x24 => (0x1818_7cc6_c2c0_7c06, 0x0686_c67c_1818_0000),
        0x25 => (0x0000_0000_c2c6_0c18, 0x3060_c686_0000_0000),
        0x26 => (0x0000_386c_6c38_76dc, 0xcccc_cc76_0000_0000),
        0x27 => (0x0030_3030_6000_0000, 0x0000_0000_0000_0000),
        0x28 => (0x0000_0c18_3030_3030, 0x3030_180c_0000_0000),
        0x29 => (0x0000_3018_0c0c_0c0c, 0x0c0c_1830_0000_0000),
        0x2a => (0x0000_0000_0066_3cff, 0x3c66_0000_0000_0000),
        0x2b => (0x0000_0000_0018_187e, 0x1818_0000_0000_0000),
        0x2c => (0x0000_0000_0000_0000, 0x0018_1818_3000_0000),
        0x2d => (0x0000_0000_0000_00fe, 0x0000_0000_0000_0000),
        0x2e => (0x0000_0000_0000_0000, 0x0000_1818_0000_0000),
        0x2f => (0x0000_0000_0206_0c18, 0x3060_c080_0000_0000),
        0x30 => (0x0000_386c_c6c6_d6d6, 0xc6c6_6c38_0000_0000),
        0x31 => (0x0000_1838_7818_1818, 0x1818_187e_0000_0000),
        0x32 => (0x0000_7cc6_060c_1830, 0x60c0_c6fe_0000_0000),
        0x33 => (0x0000_7cc6_0606_3c06, 0x0606_c67c_0000_0000),
        0x34 => (0x0000_0c1c_3c6c_ccfe, 0x0c0c_0c1e_0000_0000),
        0x35 => (0x0000_fec0_c0c0_fc06, 0x0606_c67c_0000_0000),
        0x36 => (0x0000_3860_c0c0_fcc6, 0xc6c6_c67c_0000_0000),
        0x37 => (0x0000_fec6_0606_0c18, 0x3030_3030_0000_0000),
        0x38 => (0x0000_7cc6_c6c6_7cc6, 0xc6c6_c67c_0000_0000),
        0x39 => (0x0000_7cc6_c6c6_7e06, 0x0606_0c78_0000_0000),
        0x3a => (0x0000_0000_1818_0000, 0x0018_1800_0000_0000),
        0x3b => (0x0000_0000_1818_0000, 0x0018_1830_0000_0000),
        0x3c => (0x0000_0006_0c18_3060, 0x3018_0c06_0000_0000),
        0x3d => (0x0000_0000_007e_0000, 0x7e00_0000_0000_0000),
        0x3e => (0x0000_0060_3018_0c06, 0x0c18_3060_0000_0000),
        0x3f => (0x0000_7cc6_c60c_1818, 0x1800_1818_0000_0000),
        0x40 => (0x0000_007c_c6c6_dede, 0xdcdc_c07c_0000_0000),
        0x41 => (0x0000_1038_6cc6_c6fe, 0xc6c6_c6c6_0000_0000),
        0x42 => (0x0000_fc66_6666_7c66, 0x6666_66fc_0000_0000),
        0x43 => (0x0000_3c66_c2c0_c0c0, 0xc0c2_663c_0000_0000),
        0x44 => (0x0000_f86c_6666_6666, 0x6666_6cf8_0000_0000),
        0x45 => (0x0000_fe66_6268_7868, 0x6062_66fe_0000_0000),
        0x46 => (0x0000_fe66_6268_7868, 0x6060_60f0_0000_0000),
        0x47 => (0x0000_3c66_c2c0_c0de, 0xc6c6_663a_0000_0000),
        0x48 => (0x0000_c6c6_c6c6_fec6, 0xc6c6_c6c6_0000_0000),
        0x49 => (0x0000_3c18_1818_1818, 0x1818_183c_0000_0000),
        0x4a => (0x0000_1e0c_0c0c_0c0c, 0xcccc_cc78_0000_0000),
        0x4b => (0x0000_e666_666c_7878, 0x6c66_66e6_0000_0000),
        0x4c => (0x0000_f060_6060_6060, 0x6062_66fe_0000_0000),
        0x4d => (0x0000_c6ee_fefe_d6c6, 0xc6c6_c6c6_0000_0000),
        0x4e => (0x0000_c6e6_f6fe_dece, 0xc6c6_c6c6_0000_0000),
        0x4f => (0x0000_7cc6_c6c6_c6c6, 0xc6c6_c67c_0000_0000),
        0x50 => (0x0000_fc66_6666_7c60, 0x6060_60f0_0000_0000),
        0x51 => (0x0000_7cc6_c6c6_c6c6, 0xc6d6_de7c_0c0e_0000),
        0x52 => (0x0000_fc66_6666_7c6c, 0x6666_66e6_0000_0000),
        0x53 => (0x0000_7cc6_c660_380c, 0x06c6_c67c_0000_0000),
        0x54 => (0x0000_7e7e_5a18_1818, 0x1818_183c_0000_0000),
        0x55 => (0x0000_c6c6_c6c6_c6c6, 0xc6c6_c67c_0000_0000),
        0x56 => (0x0000_c6c6_c6c6_c6c6, 0xc66c_3810_0000_0000),
        0x57 => (0x0000_c6c6_c6c6_d6d6, 0xd6fe_ee6c_0000_0000),
        0x58 => (0x0000_c6c6_6c7c_3838, 0x7c6c_c6c6_0000_0000),
        0x59 => (0x0000_6666_6666_3c18, 0x1818_183c_0000_0000),
        0x5a => (0x0000_fec6_860c_1830, 0x60c2_c6fe_0000_0000),
        0x5b => (0x0000_3c30_3030_3030, 0x3030_303c_0000_0000),
        0x5c => (0x0000_0080_c0e0_7038, 0x1c0e_0602_0000_0000),
        0x5d => (0x0000_3c0c_0c0c_0c0c, 0x0c0c_0c3c_0000_0000),
        0x5e => (0x1038_6cc6_0000_0000, 0x0000_0000_0000_0000),
        0x5f => (0x0000_0000_0000_0000, 0x0000_0000_00ff_0000),
        0x60 => (0x3030_1800_0000_0000, 0x0000_0000_0000_0000),
        0x61 => (0x0000_0000_0078_0c7c, 0xcccc_cc76_0000_0000),
        0x62 => (0x0000_e060_6078_6c66, 0x6666_667c_0000_0000),
        0x63 => (0x0000_0000_007c_c6c0, 0xc0c0_c67c_0000_0000),
        0x64 => (0x0000_1c0c_0c3c_6ccc, 0xcccc_cc76_0000_0000),
        0x65 => (0x0000_0000_007c_c6fe, 0xc0c0_c67c_0000_0000),
        0x66 => (0x0000_386c_6460_f060, 0x6060_60f0_0000_0000),
        0x67 => (0x0000_0000_0076_cccc, 0xcccc_cc7c_0ccc_7800),
        0x68 => (0x0000_e060_606c_7666, 0x6666_66e6_0000_0000),
        0x69 => (0x0000_1818_0038_1818, 0x1818_183c_0000_0000),
        0x6a => (0x0000_0606_000e_0606, 0x0606_0606_6666_3c00),
        0x6b => (0x0000_e060_6066_6c78, 0x786c_66e6_0000_0000),
        0x6c => (0x0000_3818_1818_1818, 0x1818_183c_0000_0000),
        0x6d => (0x0000_0000_00ec_fed6, 0xd6d6_d6c6_0000_0000),
        0x6e => (0x0000_0000_00dc_6666, 0x6666_6666_0000_0000),
        0x6f => (0x0000_0000_007c_c6c6, 0xc6c6_c67c_0000_0000),
        0x70 => (0x0000_0000_00dc_6666, 0x6666_667c_6060_f000),
        0x71 => (0x0000_0000_0076_cccc, 0xcccc_cc7c_0c0c_1e00),
        0x72 => (0x0000_0000_00dc_7666, 0x6060_60f0_0000_0000),
        0x73 => (0x0000_0000_007c_c660, 0x380c_c67c_0000_0000),
        0x74 => (0x0000_1030_30fc_3030, 0x3030_361c_0000_0000),
        0x75 => (0x0000_0000_00cc_cccc, 0xcccc_cc76_0000_0000),
        0x76 => (0x0000_0000_0066_6666, 0x6666_3c18_0000_0000),
        0x77 => (0x0000_0000_00c6_c6d6, 0xd6d6_fe6c_0000_0000),
        0x78 => (0x0000_0000_00c6_6c38, 0x3838_6cc6_0000_0000),
        0x79 => (0x0000_0000_00c6_c6c6, 0xc6c6_c67e_060c_f800),
        0x7a => (0x0000_0000_00fe_cc18, 0x3060_c6fe_0000_0000),
        0x7b => (0x0000_0e18_1818_7018, 0x1818_180e_0000_0000),
        0x7c => (0x0000_1818_1818_0018, 0x1818_1818_0000_0000),
        0x7d => (0x0000_7018_1818_0e18, 0x1818_1870_0000_0000),
        0x7e => (0x0000_76dc_0000_0000, 0x0000_0000_0000_0000),
        _ => if ch >= 128 {
            (OUTLINE_TOP, OUTLINE_BOTTOM)
        } else {
            (0, 0)
        },
    }
}

fn rows(ch: u8) -> (rows: (u64, u64))
    ensures
        rows == glyph_rows(ch),
{
    match ch {
        0x21 => (0x0000_183c_3c3c_1818, 0x1800_1818_0000_0000),
        0x22 => (0x0066_6666_2400_0000, 0x0000_0000_0000_0000),
        0x23 => (0x0000_006c_6cfe_6c6c, 0x6cfe_6c6c_0000_0000),
        0x24 => (0x1818_7cc6_c2c0_7c06, 0x0686_c67c_1818_0000),
        0x25 => (0x0000_0000_c2c6_0c18, 0x3060_c686_0000_0000),
        0x26 => (0x0000_386c_6c38_76dc, 0xcccc_cc76_0000_0000),
        0x27 => (0x0030_3030_6000_0000, 0x0000_0000_0000_0000),
        0x28 => (0x0000_0c18_3030_3030, 0x3030_180c_0000_0000),
        0x29 => (0x0000_3018_0c0c_0c0c, 0x0c0c_1830_0000_0000),
        0x2a => (0x0000_0000_0066_3cff, 0x3c66_0000_0000_0000),
        0x2b => (0x0000_0000_0018_187e, 0x1818_0000_0000_0000),
        0x2c => (0x0000_0000_0000_0000, 0x0018_1818_3000_0000),
        0x2d => (0x0000_0000_0000_00fe, 0x0000_0000_0000_0000),
        0x2e => (0x0000_0000_0000_0000, 0x0000_1818_0000_0000),
        0x2f => (0x0000_0000_0206_0c18, 0x3060_c080_0000_0000),
        0x30 => (0x0000_386c_c6c6_d6d6, 0xc6c6_6c38_0000_0000),
        0x31 => (0x0000_1838_7818_1818, 0x1818_187e_0000_0000),
        0x32 => (0x0000_7cc6_060c_1830, 0x60c0_c6fe_0000_0000),
        0x33 => (0x0000_7cc6_0606_3c06, 0x0606_c67c_0000_0000),
        0x34 => (0x0000_0c1c_3c6c_ccfe, 0x0c0c_0c1e_0000_0000),
        0x35 => (0x0000_fec0_c0c0_fc06, 0x0606_c67c_0000_0000),
        0x36 => (0x0000_3860_c0c0_fcc6, 0xc6c6_c67c_0000_0000),
        0x37 => (0x0000_fec6_0606_0c18, 0x3030_3030_0000_0000),
        0x38 => (0x0000_7cc6_c6c6_7cc6, 0xc6c6_c67c_0000_0000),
        0x39 => (0x0000_7cc6_c6c6_7e06, 0x0606_0c78_0000_0000),
        0x3a => (0x0000_0000_1818_0000, 0x0018_1800_0000_0000),
        0x3b => (0x0000_0000_1818_0000, 0x0018_1830_0000_0000),
        0x3c => (0x0000_0006_0c18_3060, 0x3018_0c06_0000_0000),
        0x3d => (0x0000_0000_007e_0000, 0x7e00_0000_0000_0000),
        0x3e => (0x0000_0060_3018_0c06, 0x0c18_3060_0000_0000),
        0x3f => (0x0000_7cc6_c60c_1818, 0x1800_1818_0000_0000),
        0x40 => (0x0000_007c_c6c6_dede, 0xdcdc_c07c_0000_0000),
        0x41 => (0x0000_1038_6cc6_c6fe, 0xc6c6_c6c6_0000_0000),
        0x42 => (0x0000_fc66_6666_7c66, 0x6666_66fc_0000_0000),
        0x43 => (0x0000_3c66_c2c0_c0c0, 0xc0c2_663c_0000_0000),
        0x44 => (0x0000_f86c_6666_6666, 0x6666_6cf8_0000_0000),
        0x45 => (0x0000_fe66_6268_7868, 0x6062_66fe_0000_0000),
        0x46 => (0x0000_fe66_6268_7868, 0x6060_60f0_0000_0000),
        0x47 => (0x0000_3c66_c2c0_c0de, 0xc6c6_663a_0000_0000),
        0x48 => (0x0000_c6c6_c6c6_fec6, 0xc6c6_c6c6_0000_0000),
        0x49 => (0x0000_3c18_1818_1818, 0x1818_183c_0000_0000),
        0x4a => (0x0000_1e0c_0c0c_0c0c, 0xcccc_cc78_0000_0000),
        0x4b => (0x0000_e666_666c_7878, 0x6c66_66e6_0000_0000),
        0x4c => (0x0000_f060_6060_6060, 0x6062_66fe_0000_0000),
        0x4d => (0x0000_c6ee_fefe_d6c6, 0xc6c6_c6c6_0000_0000),
        0x4e => (0x0000_c6e6_f6fe_dece, 0xc6c6_c6c6_0000_0000),
        0x4f => (0x0000_7cc6_c6c6_c6c6, 0xc6c6_c67c_0000_0000),
        0x50 => (0x0000_fc66_6666_7c60, 0x6060_60f0_0000_0000),
        0x51 => (0x0000_7cc6_c6c6_c6c6, 0xc6d6_de7c_0c0e_0000),
        0x52 => (0x0000_fc66_6666_7c6c, 0x6666_66e6_0000_0000),
        0x53 => (0x0000_7cc6_c660_380c, 0x06c6_c67c_0000_0000),
        0x54 => (0x0000_7e7e_5a18_1818, 0x1818_183c_0000_0000),
        0x55 => (0x0000_c6c6_c6c6_c6c6, 0xc6c6_c67c_0000_0000),
        0x56 => (0x0000_c6c6_c6c6_c6c6, 0xc66c_3810_0000_0000),
        0x57 => (0x0000_c6c6_c6c6_d6d6, 0xd6fe_ee6c_0000_0000),
        0x58 => (0x0000_c6c6_6c7c_3838, 0x7c6c_c6c6_0000_0000),
        0x59 => (0x0000_6666_6666_3c18, 0x1818_183c_0000_0000),
        0x5a => (0x0000_fec6_860c_1830, 0x60c2_c6fe_0000_0000),
        0x5b => (0x0000_3c30_3030_3030, 0x3030_303c_0000_0000),
        0x5c => (0x0000_0080_c0e0_7038, 0x1c0e_0602_0000_0000),
        0x5d => (0x0000_3c0c_0c0c_0c0c, 0x0c0c_0c3c_0000_0000),
        0x5e => (0x1038_6cc6_0000_0000, 0x0000_0000_0000_0000),
        0x5f => (0x0000_0000_0000_0000, 0x0000_0000_00ff_0000),
        0x60 => (0x3030_1800_0000_0000, 0x0000_0000_0000_0000),
        0x61 => (0x0000_0000_0078_0c7c, 0xcccc_cc76_0000_0000),
        0x62 => (0x0000_e060_6078_6c66, 0x6666_667c_0000_0000),
        0x63 => (0x0000_0000_007c_c6c0, 0xc0c0_c67c_0000_0000),
        0x64 => (0x0000_1c0c_0c3c_6ccc, 0xcccc_cc76_0000_0000),
        0x65 => (0x0000_0000_007c_c6fe, 0xc0c0_c67c_0000_0000),
        0x66 => (0x0000_386c_6460_f060, 0x6060_60f0_0000_0000),
        0x67 => (0x0000_0000_0076_cccc, 0xcccc_cc7c_0ccc_7800),
        0x68 => (0x0000_e060_606c_7666, 0x6666_66e6_0000_0000),
        0x69 => (0x0000_1818_0038_1818, 0x1818_183c_0000_0000),
        0x6a => (0x0000_0606_000e_0606, 0x0606_0606_6666_3c00),
        0x6b => (0x0000_e060_6066_6c78, 0x786c_66e6_0000_0000),
        0x6c => (0x0000_3818_1818_1818, 0x1818_183c_0000_0000),
        0x6d => (0x0000_0000_00ec_fed6, 0xd6d6_d6c6_0000_0000),
        0x6e => (0x0000_0000_00dc_6666, 0x6666_6666_0000_0000),
        0x6f => (0x0000_0000_007c_c6c6, 0xc6c6_c67c_0000_0000),
        0x70 => (0x0000_0000_00dc_6666, 0x6666_667c_6060_f000),
        0x71 => (0x0000_0000_0076_cccc, 0xcccc_cc7c_0c0c_1e00),
        0x72 => (0x0000_0000_00dc_7666, 0x6060_60f0_0000_0000),
        0x73 => (0x0000_0000_007c_c660, 0x380c_c67c_0000_0000),
        0x74 => (0x0000_1030_30fc_3030, 0x3030_361c_0000_0000),
        0x75 => (0x0000_0000_00cc_cccc, 0xcccc_cc76_0000_0000),
        0x76 => (0x0000_0000_0066_6666, 0x6666_3c18_0000_0000),
        0x77 => (0x0000_0000_00c6_c6d6, 0xd6d6_fe6c_0000_0000),
        0x78 => (0x0000_0000_00c6_6c38, 0x3838_6cc6_0000_0000),
        0x79 => (0x0000_0000_00c6_c6c6, 0xc6c6_c67e_060c_f800),
        0x7a => (0x0000_0000_00fe_cc18, 0x3060_c6fe_0000_0000),
        0x7b => (0x0000_0e18_1818_7018, 0x1818_180e_0000_0000),
        0x7c => (0x0000_1818_1818_0018, 0x1818_1818_0000_0000),
        0x7d => (0x0000_7018_1818_0e18, 0x1818_1870_0000_0000),
        0x7e => (0x0000_76dc_0000_0000, 0x0000_0000_0000_0000),
        _ => if ch >= 128 {
            (OUTLINE_TOP, OUTLINE_BOTTOM)
        } else {
            (0, 0)
        },
    }
}

/// One row of eight.
pub open spec fn row_of(rows: u64, index: int) -> u8 {
    (rows >> ((8 * (7 - index)) as u64)) as u8
}

/// One row of a glyph; its top bit is the leftmost pixel.
pub open spec fn glyph_row(ch: u8, row: int) -> u8 {
    if row < 8 {
        row_of(glyph_rows(ch).0, row)
    } else {
        row_of(glyph_rows(ch).1, row - 8)
    }
}

/// Whether a pixel of a row is on, counted from the left.
pub open spec fn bit_on(row: u8, column: int) -> bool {
    (row >> ((7 - column) as u8)) & 1 == 1
}

/// The rows of a glyph.
pub fn glyph(ch: u8) -> (glyph: [u8; GLYPH_HEIGHT])
    ensures
        glyph@ == Seq::new(GLYPH_HEIGHT as nat, |row: int| glyph_row(ch, row)),
{
    let (top, bottom): (u64, u64) = rows(ch);
    let glyph: [u8; GLYPH_HEIGHT] = [
        (top >> 56) as u8,
        (top >> 48) as u8,
        (top >> 40) as u8,
        (top >> 32) as u8,
        (top >> 24) as u8,
        (top >> 16) as u8,
        (top >> 8) as u8,
        (top >> 0) as u8,
        (bottom >> 56) as u8,
        (bottom >> 48) as u8,
        (bottom >> 40) as u8,
        (bottom >> 32) as u8,
        (bottom >> 24) as u8,
        (bottom >> 16) as u8,
        (bottom >> 8) as u8,
        (bottom >> 0) as u8,
    ];
    assert(glyph@ =~= Seq::new(GLYPH_HEIGHT as nat, |row: int| glyph_row(ch, row)));
    glyph
}

/// Whether a pixel of a glyph is on.
pub fn pixel_on(glyph: &[u8; GLYPH_HEIGHT], row: usize, column: usize) -> (on: bool)
    requires
        row < GLYPH_HEIGHT,
        column < GLYPH_WIDTH,
    ensures
        on == bit_on(glyph@[row as int], column as int),
{
    let shift: u8 = (7 - column) as u8;
    (glyph[row] >> shift) & 1 == 1
}

} // verus!
