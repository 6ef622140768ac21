use cyme::display::{Block, DeviceBlocks, PrintSettings};
use cyme::system_profiler::USBDevice;
use cyme::text::{centre, dec_u64, hex_digits, join_with, pad_left, pad_right, repeat};

#[test]
fn test_dec_rendering() {
    assert_eq!(dec_u64(0), "0");
    assert_eq!(dec_u64(7), "7");
    assert_eq!(dec_u64(407), "407");
    assert_eq!(dec_u64(1000), "1000");
}

#[test]
fn test_hex_rendering() {
    assert_eq!(hex_digits(0, 4), "0000");
    assert_eq!(hex_digits(255, 4), "00ff");
    assert_eq!(hex_digits(0x1d6b, 4), "1d6b");
    assert_eq!(hex_digits(0x0a, 2), "0a");
}

#[test]
fn test_padding_helpers() {
    assert_eq!(pad_right("ab", 5), "ab   ");
    assert_eq!(pad_left("ab", 5), "   ab");
    assert_eq!(pad_right("abcdef", 3), "abcdef");
    assert_eq!(centre("ab", 5), " ab  ");
    assert_eq!(centre("abc", 2), "abc");
    assert_eq!(repeat('*', 4), "****");
}

#[test]
fn test_join_with() {
    let parts = vec![String::from("a"), String::from("b"), String::from("c")];
    assert_eq!(join_with(&parts, "-"), "a-b-c");
    assert_eq!(join_with(&parts, " "), "a b c");
    let empty: Vec<String> = Vec::new();
    assert_eq!(join_with(&empty, "-"), "");
}

#[test]
fn test_format_base_u16_hex_and_decimal() {
    let hex_settings = PrintSettings::default();
    let r = <DeviceBlocks as Block<DeviceBlocks, USBDevice>>::format_base_u16(0, &hex_settings);
    assert_eq!(r, "0x0000");
    let mut dec_settings = PrintSettings::default();
    dec_settings.decimal = true;
    let r = <DeviceBlocks as Block<DeviceBlocks, USBDevice>>::format_base_u16(0, &dec_settings);
    assert_eq!(r, "     0");
    let r = <DeviceBlocks as Block<DeviceBlocks, USBDevice>>::format_base_u16(
        0x1d6b,
        &hex_settings,
    );
    assert_eq!(r, "0x1d6b");
    let r = <DeviceBlocks as Block<DeviceBlocks, USBDevice>>::format_base_u16(423, &dec_settings);
    assert_eq!(r, "   423");
}

#[test]
fn test_format_base_u8_hex_and_decimal() {
    let hex_settings = PrintSettings::default();
    let r = <DeviceBlocks as Block<DeviceBlocks, USBDevice>>::format_base_u8(9, &hex_settings);
    assert_eq!(r, "0x09");
    let mut dec_settings = PrintSettings::default();
    dec_settings.decimal = true;
    let r = <DeviceBlocks as Block<DeviceBlocks, USBDevice>>::format_base_u8(9, &dec_settings);
    assert_eq!(r, "  9");
}
