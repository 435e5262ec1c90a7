use crow_panel_advance_5::crow_panel::panel_config;
use crow_panel_advance_5::wireless::v1_1_wm_pins;

#[test]
fn wireless_port_pinout() {
    let p = v1_1_wm_pins();
    assert_eq!(
        (p.reset, p.dio1, p.busy, p.nss, p.sclk, p.miso, p.mosi),
        (19, 20, 2, 8, 5, 4, 6)
    );
}

#[test]
fn wireless_pins_do_not_collide_with_lcd_pins() {
    let p = v1_1_wm_pins();
    let c = panel_config(0);
    let mut lcd = vec![c.hsync_gpio_num, c.vsync_gpio_num, c.de_gpio_num, c.pclk_gpio_num];
    lcd.extend_from_slice(&c.data_gpio_nums);
    for pin in [p.reset, p.dio1, p.busy, p.nss, p.sclk, p.miso, p.mosi] {
        assert!(!lcd.contains(&pin));
    }
}
