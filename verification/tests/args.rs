use std::path::PathBuf;
use telnet_relay::args::{parser, ArgStruct, Args, Encode, IPv, Mode};
use telnet_relay::args::{DEFAULT_IPV, DEFAULT_PORT, DEFAULT_WAIT_MS};

fn raw(url: &str) -> Args {
    Args::new(String::from(url))
}

#[test]
fn defaults_are_client_port_23_utf8_ipv4_and_100_ms() {
    let args: Args = raw("example.org");
    assert_eq!(args.port, 23);
    assert_eq!(args.encode, "utf8");
    assert_eq!(args.ipv, 4);
    assert_eq!(args.wait_ms, 100);
    assert_eq!(DEFAULT_PORT, 23);
    assert_eq!(DEFAULT_IPV, 4);
    assert_eq!(DEFAULT_WAIT_MS, 100);
    let config: ArgStruct = parser(args);
    assert_eq!(config.mode, Mode::Client);
    assert_eq!(config.url, "example.org");
    assert_eq!(config.port, 23);
    assert_eq!(config.encode, Encode::UTF8);
    assert_eq!(config.ipv, IPv::IPv4);
    assert!(!config.server_one_char);
    assert_eq!(config.server_wait_ms, 100);
    assert_eq!(config.server_message, None);
    assert_eq!(config.server_message_file, None);
}

#[test]
fn parser_carries_every_option_over() {
    let mut args: Args = raw("::1");
    args.server = true;
    args.port = 2323;
    args.encode = String::from("Shift_JIS");
    args.ipv = 6;
    args.one_char = true;
    args.wait_ms = 50;
    args.message = Some(String::from("AB"));
    args.file = Some(PathBuf::from("motd.txt"));
    let config: ArgStruct = parser(args);
    assert_eq!(
        config,
        ArgStruct {
            mode: Mode::Server,
            url: String::from("::1"),
            port: 2323,
            encode: Encode::SHIFTJIS,
            ipv: IPv::IPv6,
            server_one_char: true,
            server_wait_ms: 50,
            server_message: Some(String::from("AB")),
            server_message_file: Some(PathBuf::from("motd.txt")),
        }
    );
}

#[test]
fn encoding_names_are_case_insensitive() {
    assert_eq!(Encode::from_name("utf8"), Encode::UTF8);
    assert_eq!(Encode::from_name("UTF8"), Encode::UTF8);
    assert_eq!(Encode::from_name("shift_jis"), Encode::SHIFTJIS);
    assert_eq!(Encode::from_name("SHIFT_JIS"), Encode::SHIFTJIS);
    assert_eq!(Encode::from_name("Shift_Jis"), Encode::SHIFTJIS);
}

#[test]
fn sjis_is_an_alias_of_shift_jis() {
    assert_eq!(Encode::from_name("sjis"), Encode::SHIFTJIS);
    assert_eq!(Encode::from_name("SJIS"), Encode::SHIFTJIS);
    assert_eq!(Encode::from_name("sJiS"), Encode::SHIFTJIS);
}

#[test]
fn unknown_encoding_names_mean_utf8() {
    assert_eq!(Encode::from_name(""), Encode::UTF8);
    assert_eq!(Encode::from_name("latin1"), Encode::UTF8);
    assert_eq!(Encode::from_name("shift-jis"), Encode::UTF8);
    assert_eq!(Encode::from_name("sjis "), Encode::UTF8);
    assert_eq!(Encode::from_name("sji"), Encode::UTF8);
    assert_eq!(Encode::from_name("shift_jis2"), Encode::UTF8);
    assert_eq!(Encode::from_name("ｓｊｉｓ"), Encode::UTF8);
}

#[test]
fn family_numbers_other_than_6_mean_ipv4() {
    assert_eq!(IPv::from_number(4), IPv::IPv4);
    assert_eq!(IPv::from_number(6), IPv::IPv6);
    assert_eq!(IPv::from_number(0), IPv::IPv4);
    assert_eq!(IPv::from_number(5), IPv::IPv4);
    assert_eq!(IPv::from_number(255), IPv::IPv4);
}

#[test]
fn server_mode_needs_the_server_flag_alone() {
    assert_eq!(Mode::from_flags(true, false), Mode::Server);
    assert_eq!(Mode::from_flags(false, true), Mode::Client);
    assert_eq!(Mode::from_flags(false, false), Mode::Client);
    assert_eq!(Mode::from_flags(true, true), Mode::Client);
}
