use can_message_data_generator::asgi::ASGIType;
use can_message_data_generator::hashing::sha256;

#[test]
fn sha256_known_digests() {
    let empty: Vec<u8> = Vec::new();
    let expected_empty: Vec<u8> = vec![
        0xe3, 0xb0, 0xc4, 0x42, 0x98, 0xfc, 0x1c, 0x14, 0x9a, 0xfb, 0xf4, 0xc8, 0x99, 0x6f,
        0xb9, 0x24, 0x27, 0xae, 0x41, 0xe4, 0x64, 0x9b, 0x93, 0x4c, 0xa4, 0x95, 0x99, 0x1b,
        0x78, 0x52, 0xb8, 0x55,
    ];
    assert_eq!(sha256(&empty), expected_empty);

    let abc: Vec<u8> = vec![b'a', b'b', b'c'];
    let expected_abc: Vec<u8> = vec![
        0xba, 0x78, 0x16, 0xbf, 0x8f, 0x01, 0xcf, 0xea, 0x41, 0x41, 0x40, 0xde, 0x5d, 0xae,
        0x22, 0x23, 0xb0, 0x03, 0x61, 0xa3, 0x96, 0x17, 0x7a, 0x9c, 0xb4, 0x10, 0xff, 0x61,
        0xf2, 0x00, 0x15, 0xad,
    ];
    assert_eq!(sha256(&abc), expected_abc);
}

#[test]
fn asgi_type_from_lowercases() {
    assert_eq!(
        ASGIType::from("HTTP.Response.Start".to_string()),
        Ok(ASGIType::HTTPResponseStart)
    );
    assert_eq!(ASGIType::from("lifespan".to_string()), Ok(ASGIType::Lifespan));
    assert_eq!(
        ASGIType::from("Lifespan.Startup.COMPLETE".to_string()),
        Ok(ASGIType::LifecycleStartupSuccess)
    );
    assert_eq!(ASGIType::from("http.request".to_string()), Err(()));
}

#[test]
fn asgi_type_names() {
    assert_eq!(ASGIType::HTTPDisconnect.as_str(), "http.disconnect");
    assert_eq!(ASGIType::WS.as_str(), "websocket");
    assert_eq!(ASGIType::Lifespan.as_str(), "lifespan");
}
