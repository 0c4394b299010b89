//! Physical constants in SI units (CODATA 2018), each as the bit pattern of
//! the binary64 number nearest to its decimal value.

use vstd::prelude::*;

verus! {

/// Elementary charge, 1.602176634e-19 C: the magnitude of the charge of a
/// proton or an electron.
pub const ELEMENTARY_CHARGE: u64 = 0x3c07_a4da_290c_1653;

/// Vacuum permittivity, 8.8541878128e-12 F/m.
pub const VACUUM_PERMITTIVITY: u64 = 0x3da3_7876_f120_6634;

/// Coulomb constant k = 1 / (4 pi epsilon_0), 8.9875517923e9 N m^2 / C^2.
pub const COULOMB_CONSTANT: u64 = 0x4200_bd99_4182_6666;

/// Electron mass, 9.1093837015e-31 kg.
pub const ELECTRON_MASS: u64 = 0x39b2_79dc_c8b6_b7ed;

/// Proton mass, 1.67262192369e-27 kg.
pub const PROTON_MASS: u64 = 0x3a60_9099_b1ea_a2c5;

/// Bohr radius, 5.29177210903e-11 m: the most probable distance between
/// the nucleus and the electron of a hydrogen atom.
pub const BOHR_RADIUS: u64 = 0x3dcd_1781_d4f5_56a3;

/// Planck constant, 6.62607015e-34 J s.
pub const PLANCK_CONSTANT: u64 = 0x390b_860b_de02_3111;

/// Reduced Planck constant h / (2 pi), 1.054571817e-34 J s.
pub const HBAR: u64 = 0x38e1_85a7_054e_4c91;

/// Speed of light in vacuum, 299792458 m/s.
pub const SPEED_OF_LIGHT: u64 = 0x41b1_de78_4a00_0000;

/// One angstrom, 1.0e-10 m.
pub const ANGSTROM: u64 = 0x3ddb_7cdf_d9d7_bdbb;

} // verus!
