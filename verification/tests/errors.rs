use vnt_api::errors::{
    error_info_from_error, error_info_from_text, error_type_from_message, error_type_from_server_code,
    extract_server_error_code, refusal_error, RustErrorType,
};

#[test]
fn codes_in_messages() {
    assert_eq!(extract_server_error_code("failed(code=3): x"), Some(3));
    assert_eq!(extract_server_error_code("密钥(code=+12)"), Some(12));
    assert_eq!(extract_server_error_code("a) (code=7)"), Some(7));
    assert_eq!(extract_server_error_code("(code=1)(code=2)"), Some(1));
    assert_eq!(extract_server_error_code("(code=x)(code=2)"), None);
    assert_eq!(extract_server_error_code("(code=4294967295)"), Some(u32::MAX));
    assert_eq!(extract_server_error_code("(code=4294967296)"), None);
    assert_eq!(extract_server_error_code("(code=)"), None);
    assert_eq!(extract_server_error_code("(code=5"), None);
    assert_eq!(extract_server_error_code("code=5)"), None);
    assert_eq!(extract_server_error_code(""), None);
}

#[test]
fn kinds_of_codes() {
    assert_eq!(error_type_from_server_code(0), None);
    assert_eq!(error_type_from_server_code(1), Some(RustErrorType::TokenError));
    assert_eq!(error_type_from_server_code(2), Some(RustErrorType::AddressExhausted));
    assert_eq!(error_type_from_server_code(3), Some(RustErrorType::IpAlreadyExists));
    assert_eq!(error_type_from_server_code(4), Some(RustErrorType::InvalidIp));
    assert_eq!(error_type_from_server_code(5), Some(RustErrorType::LocalIpExists));
    assert_eq!(error_type_from_server_code(6), None);
}

#[test]
fn kinds_of_messages() {
    for (words, kind) in [
        ("wrong password", RustErrorType::PasswordError),
        ("key_sign mismatch", RustErrorType::PasswordError),
        ("key sign mismatch", RustErrorType::PasswordError),
        ("密钥错误", RustErrorType::PasswordError),
        ("密码错误", RustErrorType::PasswordError),
        ("bad network_code", RustErrorType::TokenError),
        ("token", RustErrorType::TokenError),
        ("address exhausted", RustErrorType::AddressExhausted),
        ("地址已耗尽", RustErrorType::AddressExhausted),
        ("ip already exists", RustErrorType::IpAlreadyExists),
        ("ip 已存在", RustErrorType::IpAlreadyExists),
        ("invalid ip", RustErrorType::InvalidIp),
        ("无效 ip", RustErrorType::InvalidIp),
        ("local ip exists", RustErrorType::LocalIpExists),
        ("本机 ip", RustErrorType::LocalIpExists),
        ("failed to create device", RustErrorType::FailedToCreateDevice),
        ("启动虚拟网卡失败", RustErrorType::FailedToCreateDevice),
        ("failed to create quic endpoint", RustErrorType::NetworkError),
        ("failed to create endpoint", RustErrorType::NetworkError),
        ("quic endpoint", RustErrorType::NetworkError),
        ("getsockopt", RustErrorType::NetworkError),
        ("setsockopt", RustErrorType::NetworkError),
        ("disconnect", RustErrorType::Disconnect),
        ("disconnected", RustErrorType::Disconnect),
        ("something else", RustErrorType::Unknown),
        ("", RustErrorType::Unknown),
        ("PASSWORD", RustErrorType::Unknown),
        ("token and password", RustErrorType::PasswordError),
        ("disconnected: invalid ip", RustErrorType::InvalidIp),
    ] {
        assert_eq!(error_type_from_message(words), kind, "{}", words);
    }
}

#[test]
fn report_takes_the_whole_chain() {
    let error = anyhow::Error::msg("Wrong PASSWORD").context("注册到 VNTS 2.0 服务端失败");
    let info = error_info_from_error(&error);
    assert_eq!(info.code, RustErrorType::PasswordError);
    assert_eq!(info.server_code, None);
    assert_eq!(info.msg.unwrap(), "注册到 VNTS 2.0 服务端失败: Wrong PASSWORD");
}

#[test]
fn report_lowers_letters() {
    let info = error_info_from_error(&anyhow::Error::msg("ADDRESS EXHAUSTED, 地址"));
    assert_eq!(info.code, RustErrorType::AddressExhausted);
    assert_eq!(info.msg.unwrap(), "ADDRESS EXHAUSTED, 地址");
    assert_eq!("AZaz[@`{09".to_lowercase(), "azaz[@`{09");
}

#[test]
fn refusal_is_reported_with_its_code() {
    let info = error_info_from_error(&refusal_error(3, "password (code=1)"));
    assert_eq!(info.code, RustErrorType::IpAlreadyExists);
    assert_eq!(info.server_code, Some(3));
    assert_eq!(info.msg.unwrap(), "注册到 VNTS 2.0 服务端失败(code=3): password (code=1)");
}

#[test]
fn refusal_with_unknown_code_is_told_by_its_words() {
    let info = error_info_from_error(&refusal_error(77, "Token expired"));
    assert_eq!(info.code, RustErrorType::TokenError);
    assert_eq!(info.server_code, Some(77));
}

#[test]
fn report_of_a_text() {
    let info = error_info_from_text("X (code=2)".to_string(), "x (code=2) password");
    assert_eq!(info.code, RustErrorType::AddressExhausted);
    let info = error_info_from_text("X (code=9)".to_string(), "x (code=9) password");
    assert_eq!(info.code, RustErrorType::PasswordError);
    assert_eq!(info.server_code, Some(9));
}

#[test]
fn codes_are_read_back_behind_other_text() {
    for prefix in ["", "abc", "(code", "(", "code=)", "((code"] {
        let message = format!("{}(code={}) (code=1)", prefix, 4242);
        assert_eq!(extract_server_error_code(&message), Some(4242));
    }
}

#[test]
fn text_round_a_message_keeps_its_kind_or_finds_an_earlier_one() {
    assert_eq!(error_type_from_message("x quic endpoint y"), RustErrorType::NetworkError);
    assert_eq!(error_type_from_message("token: quic endpoint"), RustErrorType::TokenError);
    assert_eq!(error_type_from_message("quic endpoint disconnected"), RustErrorType::NetworkError);
}

#[test]
fn ideographs_are_kept_when_letters_are_lowered() {
    let info = error_info_from_error(&anyhow::Error::msg("IP 已存在"));
    assert_eq!(info.code, RustErrorType::IpAlreadyExists);
    assert_eq!("\u{4e00}A\u{7f51}Z\u{9fff}~".to_lowercase(), "\u{4e00}a\u{7f51}z\u{9fff}~");
}

#[test]
fn every_ideograph_is_kept_when_lowered() {
    for code in 0x4e00..=0x9fffu32 {
        let c = char::from_u32(code).unwrap();
        assert_eq!(c.to_string().to_lowercase(), c.to_string());
    }
}

#[test]
fn device_that_cannot_be_started_is_reported_as_such() {
    let error = anyhow::Error::msg("Access DENIED").context("启动虚拟网卡失败");
    assert_eq!(error_info_from_error(&error).code, RustErrorType::FailedToCreateDevice);
    let error = anyhow::Error::msg("Invalid IP").context("启动虚拟网卡失败");
    assert_eq!(error_info_from_error(&error).code, RustErrorType::InvalidIp);
}
