//! Verified logic of the board bring-up firmware: the test-tone generator that
//! feeds the I2S DAC and the register protocol of the CS43131 DAC.

pub mod dac;
pub mod dac_init;
