use proxy::resolver::{create_smart_resolver, SmartResolver};

#[test]
fn test_should_resolve() {
    let resolver: SmartResolver<()> = create_smart_resolver(
        "proxy.example.com".to_string(),
        1234,
        vec!["baidu.com".to_string(), "qq.com".to_string()],
    );

    assert!(resolver.should_resolve("www.baidu.com"));
    assert!(resolver.should_resolve("map.baidu.com"));
    assert!(resolver.should_resolve("qq.com"));
    assert!(!resolver.should_resolve("google.com"));
}
