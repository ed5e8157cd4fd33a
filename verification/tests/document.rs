use awall_configurator::json::Json;
use awall_configurator::models::{
    ClampMss, Config, ConnLimit, Dnat, Filter, FlowLimit, Interface, InterfaceVec, Message,
    Policy, Service, ServiceMap, Snat,
};
use awall_configurator::wire::{
    decode_list, decode_map, distinct_names, encode_list, encode_map, from_text, to_text, Key,
    ParseError, SchemaError, Shape, Wire,
};

fn s(text: &str) -> String {
    text.to_string()
}

fn minimal() -> Config {
    Config {
        description: s("test"),
        variable: None,
        zone: vec![(s("lan"), Interface { iface: s("eth0") })],
        policy: vec![Policy { in_f: None, out: None, action: s("accept") }],
        clamp_mss: None,
        filter: None,
        dnat: None,
        snat: None,
        service: None,
    }
}

fn full() -> Config {
    Config {
        description: s("d"),
        variable: Some(vec![(s("a"), s("b"))]),
        zone: vec![
            (s("lan"), Interface { iface: s("eth0") }),
            (s("wan"), Interface { iface: s("eth1") }),
        ],
        policy: vec![
            Policy { in_f: Some(s("lan")), out: Some(s("wan")), action: s("accept") },
            Policy { in_f: None, out: Some(s("lan")), action: s("drop") },
        ],
        clamp_mss: Some(vec![ClampMss { out: s("wan") }]),
        filter: Some(vec![Filter {
            in_f: s("wan"),
            out: s("lan"),
            service: s("ssh"),
            action: s("accept"),
            conn_limit: ConnLimit { count: 3, interval: 60 },
        }]),
        dnat: Some(vec![Dnat {
            in_f: s("wan"),
            dest: s("10.0.0.2"),
            service: s("http"),
            to_port: s("8080"),
        }]),
        snat: Some(vec![Snat { out: s("wan") }]),
        service: Some(ServiceMap {
            service: vec![(s("web"), Service { proto: s("tcp"), port: 80 })],
        }),
    }
}

const FULL_TEXT: &str = "{\"description\":\"d\",\"variable\":{\"a\":\"b\"},\"zone\":{\"lan\":{\"iface\":\"eth0\"},\"wan\":{\"iface\":\"eth1\"}},\"policy\":[{\"in\":\"lan\",\"out\":\"wan\",\"action\":\"accept\"},{\"out\":\"lan\",\"action\":\"drop\"}],\"clamp-mss\":[{\"out\":\"wan\"}],\"filter\":[{\"in\":\"wan\",\"out\":\"lan\",\"service\":\"ssh\",\"action\":\"accept\",\"conn-limit\":{\"count\":3,\"interval\":60}}],\"dnat\":[{\"in\":\"wan\",\"dest\":\"10.0.0.2\",\"service\":\"http\",\"to-port\":\"8080\"}],\"snat\":[{\"out\":\"wan\"}],\"service\":{\"service\":{\"web\":{\"proto\":\"tcp\",\"port\":80}}}}";

fn schema_error(text: &str) -> SchemaError {
    match from_text::<Config>(text.as_bytes()) {
        Err(ParseError::Schema(e)) => e,
        other => panic!("{:?}", other),
    }
}

#[test]
fn minimal_document_is_written_with_its_three_members() {
    assert_eq!(
        to_text::<Config>(&minimal()),
        "{\"description\":\"test\",\"zone\":{\"lan\":{\"iface\":\"eth0\"}},\"policy\":[{\"action\":\"accept\"}]}"
    );
}

#[test]
fn full_document_is_written_member_by_member() {
    assert_eq!(to_text::<Config>(&full()), FULL_TEXT);
}

#[test]
fn written_document_is_read_back() {
    for document in [minimal(), full()] {
        let text = to_text::<Config>(&document);
        assert_eq!(from_text::<Config>(text.as_bytes()), Ok(document));
    }
    for document in [minimal(), full()] {
        assert_eq!(Config::decode(&document.encode()), Ok(document));
    }
}

#[test]
fn reading_takes_the_members_in_any_order_and_skips_others() {
    let text = "{\"policy\":[{\"action\":\"accept\",\"comment\":1}],\"extra\":[1,2],\"zone\":{\"lan\":{\"iface\":\"eth0\"}},\"description\":\"test\"}";
    assert_eq!(from_text::<Config>(text.as_bytes()), Ok(minimal()));
}

#[test]
fn empty_optional_collections_are_left_out() {
    let text = "{\"description\":\"test\",\"variable\":{},\"zone\":{\"lan\":{\"iface\":\"eth0\"}},\"policy\":[{\"action\":\"accept\"}],\"clamp-mss\":[],\"filter\":[],\"dnat\":[],\"snat\":[],\"service\":null}";
    let document = from_text::<Config>(text.as_bytes()).unwrap();
    assert_eq!(document, minimal());
    assert_eq!(to_text::<Config>(&document), to_text::<Config>(&minimal()));

    let mut loose = minimal();
    loose.variable = Some(vec![]);
    loose.clamp_mss = Some(vec![]);
    loose.filter = Some(vec![]);
    loose.dnat = Some(vec![]);
    loose.snat = Some(vec![]);
    assert_eq!(to_text::<Config>(&loose), to_text::<Config>(&minimal()));
}

#[test]
fn null_stands_for_an_absent_optional_member() {
    let text = "{\"description\":\"test\",\"variable\":null,\"zone\":{\"lan\":{\"iface\":\"eth0\"}},\"policy\":[{\"in\":null,\"out\":null,\"action\":\"accept\"}],\"clamp-mss\":null,\"filter\":null,\"dnat\":null,\"snat\":null}";
    assert_eq!(from_text::<Config>(text.as_bytes()), Ok(minimal()));
}

#[test]
fn required_collections_may_be_empty() {
    let text = "{\"description\":\"\",\"zone\":{},\"policy\":[]}";
    let document = from_text::<Config>(text.as_bytes()).unwrap();
    assert_eq!(document.zone, vec![]);
    assert_eq!(document.policy, vec![]);
    assert_eq!(to_text::<Config>(&document), text);
}

#[test]
fn empty_service_map_is_kept() {
    let text = "{\"description\":\"\",\"zone\":{},\"policy\":[],\"service\":{\"service\":{}}}";
    let document = from_text::<Config>(text.as_bytes()).unwrap();
    assert_eq!(document.service, Some(ServiceMap { service: vec![] }));
    assert_eq!(to_text::<Config>(&document), text);
}

#[test]
fn mapping_keys_come_out_in_the_order_of_the_tree() {
    let text = "{\"description\":\"\",\"zone\":{\"wan\":{\"iface\":\"b\"},\"lan\":{\"iface\":\"a\"}},\"policy\":[]}";
    let document = from_text::<Config>(text.as_bytes()).unwrap();
    let names: Vec<&str> = document.zone.iter().map(|e| e.0.as_str()).collect();
    assert_eq!(names, vec!["lan", "wan"]);
    let again = from_text::<Config>(to_text::<Config>(&document).as_bytes()).unwrap();
    assert_eq!(again, document);
}

#[test]
fn missing_members_are_named() {
    assert_eq!(
        schema_error("{\"zone\":{},\"policy\":[]}"),
        SchemaError::Missing(Key::Description)
    );
    assert_eq!(
        schema_error("{\"description\":\"\",\"policy\":[]}"),
        SchemaError::Missing(Key::Zone)
    );
    assert_eq!(
        schema_error("{\"description\":\"\",\"zone\":{}}"),
        SchemaError::Missing(Key::Policy)
    );
    assert_eq!(schema_error("{}"), SchemaError::Missing(Key::Description));
    assert_eq!(
        schema_error("{\"description\":\"\",\"zone\":{\"lan\":{}},\"policy\":[]}"),
        SchemaError::Missing(Key::Iface)
    );
    assert_eq!(
        schema_error("{\"description\":\"\",\"zone\":{},\"policy\":[{\"in\":\"lan\"}]}"),
        SchemaError::Missing(Key::Action)
    );
    assert_eq!(
        schema_error("{\"description\":\"\",\"zone\":{},\"policy\":[],\"service\":{}}"),
        SchemaError::Missing(Key::Service)
    );
    assert_eq!(
        schema_error("{\"description\":\"\",\"zone\":{},\"policy\":[],\"filter\":[{\"in\":\"a\",\"out\":\"b\",\"service\":\"c\",\"action\":\"d\"}]}"),
        SchemaError::Missing(Key::ConnLimit)
    );
}

#[test]
fn first_error_in_the_order_of_the_members_wins() {
    assert_eq!(
        schema_error("{\"description\":1,\"policy\":[]}"),
        SchemaError::Type(Shape::Text)
    );
    assert_eq!(
        schema_error("{\"description\":\"\",\"zone\":[],\"policy\":3}"),
        SchemaError::Type(Shape::Object)
    );
    assert_eq!(
        schema_error("{\"description\":\"\",\"zone\":{},\"policy\":[{\"action\":\"a\"},{\"in\":1},7]}"),
        SchemaError::Type(Shape::Text)
    );
}

#[test]
fn wrong_shapes_are_named() {
    assert_eq!(schema_error("[]"), SchemaError::Type(Shape::Object));
    assert_eq!(schema_error("null"), SchemaError::Type(Shape::Object));
    assert_eq!(
        schema_error("{\"description\":null,\"zone\":{},\"policy\":[]}"),
        SchemaError::Type(Shape::Text)
    );
    assert_eq!(
        schema_error("{\"description\":\"\",\"zone\":{},\"policy\":{}}"),
        SchemaError::Type(Shape::List)
    );
    assert_eq!(
        schema_error("{\"description\":\"\",\"zone\":{},\"policy\":null}"),
        SchemaError::Type(Shape::List)
    );
    assert_eq!(
        schema_error("{\"description\":\"\",\"zone\":{\"lan\":\"eth0\"},\"policy\":[]}"),
        SchemaError::Type(Shape::Object)
    );
    assert_eq!(
        schema_error("{\"description\":\"\",\"variable\":{\"a\":1},\"zone\":{},\"policy\":[]}"),
        SchemaError::Type(Shape::Text)
    );
    assert_eq!(
        schema_error("{\"description\":\"\",\"zone\":{},\"policy\":[],\"service\":{\"service\":{\"web\":{\"proto\":\"tcp\",\"port\":\"80\"}}}}"),
        SchemaError::Type(Shape::Integer)
    );
    assert_eq!(
        schema_error("{\"description\":\"\",\"zone\":{},\"policy\":[],\"service\":{\"service\":{\"web\":{\"proto\":\"tcp\",\"port\":80.5}}}}"),
        SchemaError::Type(Shape::Integer)
    );
}

#[test]
fn integers_must_fit_their_place() {
    let port = |p: &str| {
        format!(
            "{{\"description\":\"\",\"zone\":{{}},\"policy\":[],\"service\":{{\"service\":{{\"web\":{{\"proto\":\"tcp\",\"port\":{}}}}}}}}}",
            p
        )
    };
    assert_eq!(schema_error(&port("32768")), SchemaError::Range);
    assert_eq!(schema_error(&port("-32769")), SchemaError::Range);
    let top = from_text::<Config>(port("32767").as_bytes()).unwrap();
    assert_eq!(top.service.unwrap().service[0].1.port, 32767);
    let bottom = from_text::<Config>(port("-32768").as_bytes()).unwrap();
    assert_eq!(bottom.service.unwrap().service[0].1.port, -32768);

    assert_eq!(i32::decode(&Json::Int(2147483647)), Ok(i32::MAX));
    assert_eq!(i32::decode(&Json::Int(-2147483648)), Ok(i32::MIN));
    assert_eq!(i32::decode(&Json::Int(2147483648)), Err(SchemaError::Range));
    assert_eq!(i32::decode(&Json::Int(-2147483649)), Err(SchemaError::Range));
    assert_eq!(i32::decode(&Json::Real(s("1.0"))), Err(SchemaError::Type(Shape::Integer)));
    assert_eq!(i16::decode(&Json::Null), Err(SchemaError::Type(Shape::Integer)));
    assert_eq!(7i16.encode(), Json::Int(7));
    assert_eq!((-7i32).encode(), Json::Int(-7));
}

#[test]
fn mapping_that_names_a_key_twice_is_no_document() {
    let zone = Json::Object(vec![
        (s("lan"), Interface { iface: s("a") }.encode()),
        (s("wan"), Interface { iface: s("b") }.encode()),
        (s("lan"), Interface { iface: s("c") }.encode()),
    ]);
    assert_eq!(decode_map::<Interface>(&zone), Err(SchemaError::Duplicate));
    let tree = Json::Object(vec![
        (s("description"), Json::Text(s(""))),
        (s("zone"), zone),
        (s("policy"), Json::List(vec![])),
    ]);
    assert_eq!(Config::decode(&tree), Err(SchemaError::Duplicate));
    match &tree {
        Json::Object(members) => assert!(distinct_names(members)),
        _ => unreachable!(),
    }
}

#[test]
fn syntax_errors_carry_the_readers_message() {
    match from_text::<Config>(b"{\"description\": ") {
        Err(ParseError::Syntax(message)) => {
            assert_eq!(message, "EOF while parsing a value at line 1 column 16");
        }
        other => panic!("{:?}", other),
    }
    let error = from_text::<Config>(b"not json").unwrap_err();
    assert!(!error.message().is_empty());
}

#[test]
fn errors_in_words() {
    assert_eq!(SchemaError::Missing(Key::Description).message(), "missing field `description`");
    assert_eq!(SchemaError::Missing(Key::ClampMss).message(), "missing field `clamp-mss`");
    assert_eq!(SchemaError::Type(Shape::Text).message(), "invalid type: expected a string");
    assert_eq!(SchemaError::Type(Shape::Integer).message(), "invalid type: expected an integer");
    assert_eq!(SchemaError::Type(Shape::List).message(), "invalid type: expected a sequence");
    assert_eq!(SchemaError::Type(Shape::Object).message(), "invalid type: expected a map");
    assert_eq!(SchemaError::Range.message(), "invalid value: integer out of range");
    assert_eq!(SchemaError::Duplicate.message(), "invalid value: duplicate key");
    assert_eq!(ParseError::Schema(SchemaError::Range).message(), SchemaError::Range.message());
    assert_eq!(ParseError::Syntax(s("here")).message(), "here");
}

#[test]
fn keys_are_written_as_in_the_document() {
    let all = [
        (Key::Description, "description"),
        (Key::Variable, "variable"),
        (Key::Zone, "zone"),
        (Key::Policy, "policy"),
        (Key::ClampMss, "clamp-mss"),
        (Key::Filter, "filter"),
        (Key::Dnat, "dnat"),
        (Key::Snat, "snat"),
        (Key::Service, "service"),
        (Key::In, "in"),
        (Key::Out, "out"),
        (Key::Action, "action"),
        (Key::Dest, "dest"),
        (Key::ToPort, "to-port"),
        (Key::ConnLimit, "conn-limit"),
        (Key::Count, "count"),
        (Key::Interval, "interval"),
        (Key::Proto, "proto"),
        (Key::Port, "port"),
        (Key::Iface, "iface"),
        (Key::Message, "message"),
    ];
    for (key, name) in all {
        assert_eq!(key.as_str(), name);
    }
}

#[test]
fn each_record_is_written_and_read() {
    let policy = Policy { in_f: Some(s("a")), out: None, action: s("drop") };
    assert_eq!(to_text::<Policy>(&policy), "{\"in\":\"a\",\"action\":\"drop\"}");
    assert_eq!(Policy::decode(&policy.encode()), Ok(policy));

    let snat = Snat { out: s("wan") };
    assert_eq!(to_text::<Snat>(&snat), "{\"out\":\"wan\"}");
    assert_eq!(Snat::decode(&snat.encode()), Ok(snat));

    let clamp = ClampMss { out: s("wan") };
    assert_eq!(to_text::<ClampMss>(&clamp), "{\"out\":\"wan\"}");
    assert_eq!(ClampMss::decode(&clamp.encode()), Ok(clamp));

    let conn = ConnLimit { count: -1, interval: 2147483647 };
    assert_eq!(to_text::<ConnLimit>(&conn), "{\"count\":-1,\"interval\":2147483647}");
    assert_eq!(ConnLimit::decode(&conn.encode()), Ok(conn));

    let flow = FlowLimit { count: 10, interval: 5 };
    assert_eq!(to_text::<FlowLimit>(&flow), "{\"count\":10,\"interval\":5}");
    assert_eq!(FlowLimit::decode(&flow.encode()), Ok(flow));
    assert_eq!(
        FlowLimit::decode(&Json::Object(vec![(s("count"), Json::Int(1))])),
        Err(SchemaError::Missing(Key::Interval))
    );

    let service = Service { proto: s("udp"), port: 53 };
    assert_eq!(to_text::<Service>(&service), "{\"proto\":\"udp\",\"port\":53}");
    assert_eq!(Service::decode(&service.encode()), Ok(service));

    let dnat = Dnat { in_f: s("a"), dest: s("b"), service: s("c"), to_port: s("d") };
    assert_eq!(
        to_text::<Dnat>(&dnat),
        "{\"in\":\"a\",\"dest\":\"b\",\"service\":\"c\",\"to-port\":\"d\"}"
    );
    assert_eq!(Dnat::decode(&dnat.encode()), Ok(dnat));

    let message = Message { message: s("no such file") };
    assert_eq!(to_text::<Message>(&message), "{\"message\":\"no such file\"}");
    assert_eq!(from_text::<Message>(b"{\"message\":\"no such file\"}"), Ok(message));

    let interfaces = InterfaceVec(vec![Interface { iface: s("lo") }]);
    assert_eq!(to_text::<InterfaceVec>(&interfaces), "[{\"iface\":\"lo\"}]");
    assert_eq!(from_text::<InterfaceVec>(b"[{\"iface\":\"lo\"}]"), Ok(interfaces));
    assert_eq!(
        from_text::<InterfaceVec>(b"{}"),
        Err(ParseError::Schema(SchemaError::Type(Shape::List)))
    );
}

#[test]
fn lists_and_mappings_are_written_in_their_order() {
    let xs = vec![s("b"), s("a")];
    assert_eq!(encode_list::<String>(&xs).render(), "[\"b\",\"a\"]");
    assert_eq!(decode_list::<String>(&encode_list::<String>(&xs)), Ok(xs));
    assert_eq!(decode_list::<String>(&Json::Null), Err(SchemaError::Type(Shape::List)));

    let es = vec![(s("b"), 1i32), (s("a"), 2i32)];
    assert_eq!(encode_map::<i32>(&es).render(), "{\"b\":1,\"a\":2}");
    assert_eq!(decode_map::<i32>(&encode_map::<i32>(&es)), Ok(es));
    assert_eq!(decode_map::<i32>(&Json::List(vec![])), Err(SchemaError::Type(Shape::Object)));
    assert_eq!(
        decode_map::<i32>(&Json::Object(vec![(s("a"), Json::Int(1)), (s("b"), Json::Null)])),
        Err(SchemaError::Type(Shape::Integer))
    );
}

#[test]
fn document_agrees_with_serde_json_on_its_own_text() {
    let value: serde_json::Value = serde_json::from_str(FULL_TEXT).unwrap();
    let document = from_text::<Config>(FULL_TEXT.as_bytes()).unwrap();
    let again: serde_json::Value =
        serde_json::from_str(&to_text::<Config>(&document)).unwrap();
    assert_eq!(again, value);
    assert_eq!(document, full());
}
