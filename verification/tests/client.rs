use bosminer_antminer::client::{
    contains_text, move_client_to, remove_client_at, same_text, ClientError, Descriptor, Protocol,
    UrlParts, UserInfo, DEFAULT_PORT_STRATUM_V1, DELIMITER,
};
use bosminer_antminer::error::ErrorKind;

#[test]
fn test_user_info_parse() {
    let info = UserInfo::parse("braiins.worker:secret");
    assert_eq!(info.user, "braiins.worker");
    assert_eq!(info.password, Some("secret"));

    let info = UserInfo::parse("braiins.worker");
    assert_eq!(info.user, "braiins.worker");
    assert_eq!(info.password, None);

    // the last delimiter counts
    let info = UserInfo::parse("a:b:c");
    assert_eq!(info.user, "a:b");
    assert_eq!(info.password, Some("c"));

    let info = UserInfo::parse("user:");
    assert_eq!(info.user, "user");
    assert_eq!(info.password, Some(""));

    let info = UserInfo::parse(":pass");
    assert_eq!(info.user, "");
    assert_eq!(info.password, Some("pass"));

    let info = UserInfo::parse("");
    assert_eq!(info.user, "");
    assert_eq!(info.password, None);

    let info = UserInfo::parse("žluťoučký:kůň");
    assert_eq!(info.user, "žluťoučký");
    assert_eq!(info.password, Some("kůň"));
    assert_eq!(DELIMITER, ':');
}

#[test]
fn test_user_info_new() {
    let info = UserInfo::new("user", Some("pass"));
    assert_eq!(info.user, "user");
    assert_eq!(info.password, Some("pass"));
    let info = UserInfo::new("user", None);
    assert_eq!(info.password, None);
}

#[test]
fn test_text_helpers() {
    assert!(same_text("abc", "abc"));
    assert!(!same_text("abc", "abd"));
    assert!(!same_text("abc", "ab"));
    assert!(same_text("", ""));
    assert!(contains_text("eu.nicehash.com", ".nicehash.com"));
    assert!(contains_text("abc", ""));
    assert!(contains_text("abc", "c"));
    assert!(!contains_text("abc", "abcd"));
    assert!(!contains_text("nicehash.com", ".nicehash.com"));
    assert!(contains_text("aab", "ab"));
}

#[test]
fn test_protocol_parse() {
    assert!(matches!(Protocol::parse("drain", "/"), Ok(Protocol::Drain)));
    assert!(matches!(
        Protocol::parse("stratum+tcp", ""),
        Ok(Protocol::StratumV1)
    ));
    assert!(matches!(
        Protocol::parse("stratum2+tcp+insecure", "/anything"),
        Ok(Protocol::StratumV2Insecure)
    ));
    match Protocol::parse("stratum2+tcp", "/u95GEReVMjK6k5YqiSFNqqTnKU4ypU2Wm8awa6tmbmDmk1bWt") {
        Ok(Protocol::StratumV2(key)) => {
            assert_eq!(key, "u95GEReVMjK6k5YqiSFNqqTnKU4ypU2Wm8awa6tmbmDmk1bWt")
        }
        other => panic!("unexpected protocol {:?}", other),
    }
    match Protocol::parse("stratum2+tcp", "/") {
        Ok(Protocol::StratumV2(key)) => assert_eq!(key, ""),
        other => panic!("unexpected protocol {:?}", other),
    }
    let err = Protocol::parse("stratum2+tcp", "").expect_err("key not missed");
    match err.kind() {
        ErrorKind::Client(msg) => assert_eq!(
            msg,
            "missing upstream authority key for securing stratum2+tcp connection"
        ),
        other => panic!("unexpected error {:?}", other),
    }
    let err = Protocol::parse("http", "/").expect_err("http accepted");
    match err.kind() {
        ErrorKind::Client(msg) => assert_eq!(msg, "unknown protocol 'http'"),
        other => panic!("unexpected error {:?}", other),
    }
    assert_eq!(err.to_string(), "Client: unknown protocol 'http'");
}

#[test]
fn test_protocol_names() {
    assert_eq!(Protocol::Drain.scheme(), "drain");
    assert_eq!(Protocol::StratumV1.scheme(), "stratum+tcp");
    assert_eq!(Protocol::StratumV2("key".to_string()).scheme(), "stratum2+tcp");
    assert_eq!(Protocol::StratumV2Insecure.scheme(), "stratum2+tcp+insecure");
    assert_eq!(Protocol::Drain.default_port(), 0);
    assert_eq!(Protocol::StratumV1.default_port(), 3333);
    assert_eq!(DEFAULT_PORT_STRATUM_V1, 3333);
    assert_eq!(Protocol::StratumV2("key".to_string()).default_port(), 3336);
    assert_eq!(Protocol::StratumV2Insecure.default_port(), 3336);
    assert_eq!(Protocol::Drain.to_string(), "Drain");
    assert_eq!(Protocol::StratumV1.to_string(), "Stratum V1");
    assert_eq!(
        Protocol::StratumV2("key".to_string()).to_string(),
        "Stratum V2 (authority key: key)"
    );
    assert_eq!(Protocol::StratumV2Insecure.to_string(), "Stratum V2 Insecure");
}

#[test]
fn test_descriptor_create() {
    let user_info = UserInfo::parse("braiins.worker:secret");
    let descriptor =
        Descriptor::create("stratum+tcp://stratum.slushpool.com:3333", &user_info, true)
            .expect("descriptor refused");
    assert!(matches!(descriptor.protocol, Protocol::StratumV1));
    assert!(descriptor.enabled);
    assert_eq!(descriptor.user, "braiins.worker");
    assert_eq!(descriptor.password, Some("secret".to_string()));
    assert_eq!(descriptor.host, "stratum.slushpool.com");
    assert_eq!(descriptor.port, Some(3333));
    assert_eq!(descriptor.port(), 3333);
    assert_eq!(descriptor.fragment, None);
    assert_eq!(
        descriptor.get_full_url(),
        "stratum+tcp://braiins.worker@stratum.slushpool.com:3333"
    );
    assert_eq!(
        descriptor.get_url(true, false, false),
        "stratum+tcp://stratum.slushpool.com"
    );
    assert_eq!(
        descriptor.get_url(false, true, false),
        "stratum.slushpool.com:3333"
    );
    assert_eq!(
        descriptor.get_url(false, false, true),
        "braiins.worker@stratum.slushpool.com"
    );
    assert!(!descriptor.detect_xnsub());
    let copy = descriptor.clone();
    assert_eq!(copy.host, descriptor.host);
    assert_eq!(copy.get_full_url(), descriptor.get_full_url());
}

#[test]
fn test_descriptor_defaults() {
    let user_info = UserInfo::new("worker", None);
    let descriptor = Descriptor::create("stratum+tcp://pool.example.com", &user_info, false)
        .expect("descriptor refused");
    assert!(!descriptor.enabled);
    assert_eq!(descriptor.password, None);
    assert_eq!(descriptor.port, None);
    assert_eq!(descriptor.port(), 3333);
    assert_eq!(
        descriptor.get_full_url(),
        "stratum+tcp://worker@pool.example.com"
    );

    let descriptor = Descriptor::create(
        "stratum2+tcp://v2.stratum.slushpool.com/u95GEReVMjK6k5YqiSFNqqTnKU4ypU2Wm8awa6tmbmDmk1bWt",
        &user_info,
        true,
    )
    .expect("descriptor refused");
    match &descriptor.protocol {
        Protocol::StratumV2(key) => {
            assert_eq!(key, "u95GEReVMjK6k5YqiSFNqqTnKU4ypU2Wm8awa6tmbmDmk1bWt")
        }
        other => panic!("unexpected protocol {:?}", other),
    }
    assert_eq!(descriptor.port(), 3336);
    assert_eq!(descriptor.host, "v2.stratum.slushpool.com");
}

#[test]
fn test_descriptor_xnsub() {
    let user_info = UserInfo::new("worker", None);
    let descriptor = Descriptor::create(
        "stratum+tcp://equihash.eu.nicehash.com:3357",
        &user_info,
        true,
    )
    .expect("descriptor refused");
    assert!(descriptor.detect_xnsub());
    let descriptor = Descriptor::create("stratum+tcp://pool.example.com:3357#xnsub", &user_info, true)
        .expect("descriptor refused");
    assert_eq!(descriptor.fragment, Some("xnsub".to_string()));
    assert!(descriptor.detect_xnsub());
    let descriptor = Descriptor::create("stratum+tcp://pool.example.com:3357#other", &user_info, true)
        .expect("descriptor refused");
    assert!(!descriptor.detect_xnsub());
}

#[test]
fn test_descriptor_errors() {
    let user_info = UserInfo::new("worker", None);
    let kind = |url: &str| match Descriptor::create(url, &user_info, true) {
        Err(e) => match e.kind() {
            ErrorKind::Client(msg) => msg,
            other => panic!("unexpected error {:?}", other),
        },
        Ok(_) => panic!("descriptor accepted"),
    };
    assert_eq!(kind("not a url"), "invalid URL");
    assert_eq!(kind(""), "invalid URL");
    assert_eq!(kind("http://example.com"), "unknown protocol 'http'");
    assert_eq!(kind("drain:nothing"), "missing hostname");
}

#[test]
fn test_descriptor_from_parts() {
    let user_info = UserInfo::new("worker", Some("x"));
    let parts = UrlParts {
        scheme: "drain".to_string(),
        path: "".to_string(),
        host: Some("localhost".to_string()),
        port: Some(1),
        fragment: Some("frag".to_string()),
    };
    let descriptor = Descriptor::from_parts(parts, &user_info, true).expect("descriptor refused");
    assert!(matches!(descriptor.protocol, Protocol::Drain));
    assert_eq!(descriptor.host, "localhost");
    assert_eq!(descriptor.port(), 1);
    assert_eq!(descriptor.fragment, Some("frag".to_string()));
    assert_eq!(descriptor.get_full_url(), "drain://worker@localhost:1");
    let parts = UrlParts {
        scheme: "drain".to_string(),
        path: "".to_string(),
        host: None,
        port: None,
        fragment: None,
    };
    assert!(Descriptor::from_parts(parts, &user_info, true).is_err());
}

#[test]
fn test_move_client() {
    let mut clients = vec!['a', 'b', 'c', 'd', 'e'];
    assert_eq!(move_client_to(&mut clients, 3, 1), Ok(1));
    assert_eq!(clients, vec!['a', 'd', 'b', 'c', 'e']);
    assert_eq!(move_client_to(&mut clients, 1, 3), Ok(3));
    assert_eq!(clients, vec!['a', 'b', 'c', 'd', 'e']);
    assert_eq!(move_client_to(&mut clients, 0, 4), Ok(4));
    assert_eq!(clients, vec!['b', 'c', 'd', 'e', 'a']);
    assert_eq!(move_client_to(&mut clients, 2, 2), Ok(2));
    assert_eq!(clients, vec!['b', 'c', 'd', 'e', 'a']);
    assert_eq!(move_client_to(&mut clients, 5, 0), Err(ClientError::Missing));
    assert_eq!(move_client_to(&mut clients, 0, 5), Err(ClientError::Missing));
    assert_eq!(clients, vec!['b', 'c', 'd', 'e', 'a']);
}

#[test]
fn test_remove_client() {
    let mut clients = vec!['a', 'b', 'c'];
    assert_eq!(remove_client_at(&mut clients, 1), Ok('b'));
    assert_eq!(clients, vec!['a', 'c']);
    assert_eq!(remove_client_at(&mut clients, 2), Err(ClientError::Missing));
    assert_eq!(clients, vec!['a', 'c']);
}
