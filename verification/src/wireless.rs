//! Pinout of the wireless-module port of the CrowPanel Advance 5.0 (board
//! revision 1.1), typically fitted with a LoRa module on SPI.
//!
//! Using the port needs the DIP switches set to S1 = 0 (off), S0 = 1 (on);
//! that setting routes GPIO4, GPIO5 and GPIO6 to the module connector.

use crate::crow_panel::lcd_pins;
use vstd::prelude::*;

verus! {

/// GPIO numbers of the wireless-module port.
#[derive(Clone, Copy, Debug)]
pub struct WirelessModulePins {
    pub reset: i32,
    pub dio1: i32,
    pub busy: i32,
    pub nss: i32,
    pub sclk: i32,
    pub miso: i32,
    pub mosi: i32,
}

/// Standard pinout of the wireless-module port on board revision 1.1.
pub open spec fn v1_1_pins() -> WirelessModulePins {
    WirelessModulePins { reset: 19, dio1: 20, busy: 2, nss: 8, sclk: 5, miso: 4, mosi: 6 }
}

/// Standard pinout of the wireless-module port on board revision 1.1.
pub fn v1_1_wm_pins() -> (p: WirelessModulePins)
    ensures
        p == v1_1_pins(),
{
    WirelessModulePins { reset: 19, dio1: 20, busy: 2, nss: 8, sclk: 5, miso: 4, mosi: 6 }
}

/// The GPIO numbers of a pinout, in field order.
pub open spec fn pin_list(p: WirelessModulePins) -> Seq<i32> {
    seq![p.reset, p.dio1, p.busy, p.nss, p.sclk, p.miso, p.mosi]
}

/// The standard pinout puts the SPI clock and data lines on GPIO5, GPIO4 and
/// GPIO6, its pins are pairwise distinct, and none of them is used by the LCD
/// interface.
pub proof fn lemma_v1_1_pinout()
    ensures
        v1_1_pins().sclk == 5 && v1_1_pins().miso == 4 && v1_1_pins().mosi == 6,
        forall|i: int, j: int|
            0 <= i < j < 7 ==> #[trigger] pin_list(v1_1_pins())[i] != #[trigger] pin_list(
                v1_1_pins(),
            )[j],
        forall|i: int, j: int|
            0 <= i < 7 && 0 <= j < lcd_pins().len() ==> #[trigger] pin_list(v1_1_pins())[i]
                != #[trigger] lcd_pins()[j],
{
    assert(pin_list(v1_1_pins()) =~= seq![19i32, 20, 2, 8, 5, 4, 6]);
    assert(lcd_pins() =~= seq![40i32, 41, 42, 39, 21, 47, 48, 45, 38, 9, 10, 11, 12, 13, 14, 7, 17, 18, 3, 46]);
}

} // verus!
