use vscp::bureau::BureauConfig;
use vscp::bureau_manager::{BureauManager, Vacancy, IDLE_SECONDS};
use vscp::user::ReadOutcome;
use vscp::wls::{
    default_wrls, parse_request, refusal, response, Lookup, Served, Wls, MAX_REQUEST,
    REQUEST_SECONDS,
};

fn config(max_users: i32) -> BureauConfig {
    BureauConfig {
        connect_timeout: 10,
        max_users,
        max_queue: 10,
        aura_radius: 200 * 65535,
        wrl: None,
    }
}

fn wls(max_bureaus: usize, max_users: i32) -> Wls {
    Wls::new("host".to_string(), default_wrls(), max_bureaus, &config(max_users))
}

fn fill(manager: &mut BureauManager, index: usize, users: i32) {
    for id in 1..=users {
        assert!(manager.bureau_mut(index).add(id, Some(14)));
    }
}

#[test]
fn default_worlds() {
    assert_eq!(
        default_wrls(),
        vec![
            "SAPARi COAST MIL.",
            "SAPARi DOWNTOWN MIL.",
            "HONJO JIDAIMURA MIL.",
            "SAPARi PARK MIL.",
            "SAPARi SPA",
            "SAPARi GARDEN",
            "SAPARi HILLS",
        ]
    );
}

#[test]
fn request_names_its_third_field() {
    assert_eq!(parse_request(b"f,10.0.0.1,SAPARi SPA"), Some("SAPARi SPA".to_string()));
    assert_eq!(parse_request(b"f,,x"), Some("x".to_string()));
    assert_eq!(parse_request(b"f,a,"), Some(String::new()));
    assert_eq!(parse_request(b"f,a,b,c"), Some("b".to_string()));
    assert_eq!(parse_request(b"f,a,b,"), Some("b".to_string()));
    assert_eq!(parse_request("f,10.0.0.1,Wörld ☃".as_bytes()), Some("Wörld ☃".to_string()));
    assert_eq!(parse_request(b"f,a,b\0"), Some("b\0".to_string()));
}

#[test]
fn malformed_requests_name_nothing() {
    let bad: [&[u8]; 10] = [
        b"",
        b"f",
        b"f,",
        b"f,10.0.0.1",
        b"g,10.0.0.1,SAPARi SPA",
        b"F,10.0.0.1,SAPARi SPA",
        b"ff,10.0.0.1,SAPARi SPA",
        b",f,x",
        b" f,a,b",
        b"f,\xFF,SAPARi SPA",
    ];
    for bytes in bad {
        assert_eq!(parse_request(bytes), None);
    }
}

#[test]
fn answers() {
    assert_eq!(refusal(), b"f,9".to_vec());
    assert_eq!(response("host", 5126), b"f,0,host,5126\0".to_vec());
    assert_eq!(response("127.0.0.1", 0), b"f,0,127.0.0.1,0\0".to_vec());
    assert_eq!(response("", 9), b"f,0,,9\0".to_vec());
    assert_eq!(response("h", 10), b"f,0,h,10\0".to_vec());
    assert_eq!(response("h", 65535), b"f,0,h,65535\0".to_vec());
    assert_eq!(response("h", 40000), b"f,0,h,40000\0".to_vec());
    for port in [1u16, 99, 100, 1024, 9999, 10000, 50505] {
        assert_eq!(response("x", port), format!("f,0,x,{}\0", port).into_bytes());
    }
}

#[test]
fn unknown_world() {
    let w = wls(2, 4);
    assert_eq!(w.lookup(b"f,10.0.0.1,NOSUCH"), Lookup::Answer(b"f,9".to_vec()));
    assert_eq!(refusal().len(), 3);
}

#[test]
fn invalid_request_is_refused() {
    let w = wls(2, 4);
    assert_eq!(w.lookup(b"hello"), Lookup::Answer(b"f,9".to_vec()));
    assert_eq!(w.lookup(b""), Lookup::Answer(b"f,9".to_vec()));
    assert_eq!(w.lookup(b"f,10.0.0.1"), Lookup::Answer(b"f,9".to_vec()));
}

#[test]
fn known_world_with_a_fresh_pool() {
    let mut w = wls(2, 4);
    assert_eq!(w.len(), 7);
    assert_eq!(w.find("SAPARi SPA"), Some(4));
    assert_eq!(w.find("NOSUCH"), None);
    assert_eq!(w.manager(4).wrl(), "SAPARi SPA");
    let index = match w.lookup(b"f,10.0.0.1,SAPARi SPA") {
        Lookup::Spawn(index) => index,
        Lookup::Answer(_) => panic!("a fresh pool asks for a bureau"),
    };
    assert_eq!(index, 4);
    assert_eq!(w.spawned(index, 40123, 0), b"f,0,host,40123\0".to_vec());
    assert_eq!(w.manager(4).len(), 1);
    assert_eq!(w.manager(4).bureau(0).port(), 40123);
    assert_eq!(w.manager(4).bureau(0).config().wrl, Some("SAPARi SPA".to_string()));
    assert_eq!(w.manager(4).bureau(0).config().max_users, 4);
    // the next client of that world goes to the same bureau
    assert_eq!(
        w.lookup(b"f,10.0.0.2,SAPARi SPA"),
        Lookup::Answer(b"f,0,host,40123\0".to_vec())
    );
    // another world has its own pool
    assert_eq!(w.lookup(b"f,10.0.0.2,SAPARi HILLS"), Lookup::Spawn(6));
}

#[test]
fn pool_grows_and_is_exhausted() {
    let mut w = wls(2, 2);
    assert_eq!(w.lookup(b"f,a,SAPARi SPA"), Lookup::Spawn(4));
    w.spawned(4, 1001, 0);
    fill(w.manager_mut(4), 0, 1);
    assert_eq!(w.lookup(b"f,a,SAPARi SPA"), Lookup::Answer(b"f,0,host,1001\0".to_vec()));
    assert!(w.manager_mut(4).bureau_mut(0).add(2, Some(14)));
    assert_eq!(w.lookup(b"f,a,SAPARi SPA"), Lookup::Spawn(4));
    assert_eq!(w.spawned(4, 1002, 0), b"f,0,host,1002\0".to_vec());
    assert_eq!(w.lookup(b"f,a,SAPARi SPA"), Lookup::Answer(b"f,0,host,1002\0".to_vec()));
    fill(w.manager_mut(4), 1, 2);
    assert_eq!(w.lookup(b"f,a,SAPARi SPA"), Lookup::Answer(b"f,9".to_vec()));
    // a bureau that is handed over all the same is not taken
    assert_eq!(w.spawned(4, 1003, 0), b"f,9".to_vec());
    assert_eq!(w.manager(4).len(), 2);
    // room in the first bureau is found again
    w.manager_mut(4).bureau_mut(0).users_mut().disconnect(1);
    assert_eq!(w.lookup(b"f,a,SAPARi SPA"), Lookup::Answer(b"f,0,host,1001\0".to_vec()));
}

#[test]
fn serve_waits_closes_and_answers() {
    let w = wls(2, 2);
    assert_eq!(REQUEST_SECONDS, 10);
    assert_eq!(MAX_REQUEST, 256);
    assert_eq!(w.serve(100, 100, ReadOutcome::WouldBlock), Served::Wait);
    assert_eq!(w.serve(100, 109, ReadOutcome::WouldBlock), Served::Wait);
    assert_eq!(w.serve(100, 110, ReadOutcome::WouldBlock), Served::Close);
    assert_eq!(w.serve(100, 50, ReadOutcome::WouldBlock), Served::Wait);
    assert_eq!(w.serve(100, 100, ReadOutcome::Failed), Served::Close);
    assert_eq!(
        w.serve(100, 500, ReadOutcome::Data(b"f,1.2.3.4,NOSUCH".to_vec())),
        Served::Request(Lookup::Answer(b"f,9".to_vec()))
    );
    assert_eq!(
        w.serve(100, 100, ReadOutcome::Data(b"f,1.2.3.4,SAPARi GARDEN".to_vec())),
        Served::Request(Lookup::Spawn(5))
    );
    assert_eq!(
        w.serve(100, 100, ReadOutcome::Data(Vec::new())),
        Served::Request(Lookup::Answer(b"f,9".to_vec()))
    );
}

#[test]
fn manager_rule() {
    let mut manager = BureauManager::new("W".to_string(), 2, config(1));
    assert_eq!(manager.wrl(), "W");
    assert_eq!(manager.len(), 0);
    assert_eq!(manager.available(), Vacancy::Spawn);
    assert_eq!(manager.spawn(7000, 5), Some(7000));
    assert_eq!(manager.available(), Vacancy::Found(7000));
    fill(&mut manager, 0, 1);
    assert_eq!(manager.available(), Vacancy::Spawn);
    assert_eq!(manager.spawn(7001, 6), Some(7001));
    assert_eq!(manager.available(), Vacancy::Found(7001));
    fill(&mut manager, 1, 1);
    assert_eq!(manager.available(), Vacancy::Full);
    assert_eq!(manager.spawn(7002, 7), None);
    assert_eq!(manager.len(), 2);
}

#[test]
fn a_pool_of_no_bureaus_is_always_full() {
    let mut manager = BureauManager::new("W".to_string(), 0, config(1));
    assert_eq!(manager.available(), Vacancy::Full);
    assert_eq!(manager.spawn(7000, 0), None);
}

#[test]
fn empty_bureaus_are_given_up_after_ten_seconds() {
    assert_eq!(IDLE_SECONDS, 10);
    let mut manager = BureauManager::new("W".to_string(), 4, config(2));
    manager.spawn(7000, 100);
    manager.spawn(7001, 100);
    manager.spawn(7002, 105);
    fill(&mut manager, 1, 1);
    assert!(manager.poll(100).is_empty());
    assert!(manager.poll(109).is_empty());
    assert!(manager.poll(50).is_empty());
    assert_eq!(manager.len(), 3);
    // the first is empty and old enough; the second has a user; the third is young
    assert_eq!(manager.poll(110), vec![7000]);
    assert_eq!(manager.len(), 2);
    assert_eq!(manager.bureau(0).port(), 7001);
    assert_eq!(manager.bureau(1).port(), 7002);
    assert_eq!(manager.poll(115), vec![7002]);
    assert!(manager.poll(100_000).is_empty());
    manager.bureau_mut(0).users_mut().disconnect(1);
    assert_eq!(manager.poll(100_000), vec![7001]);
    assert_eq!(manager.len(), 0);
    assert_eq!(manager.available(), Vacancy::Spawn);
}

#[test]
fn several_bureaus_are_given_up_at_once() {
    let mut manager = BureauManager::new("W".to_string(), 8, config(2));
    for (i, port) in [7000u16, 7001, 7002, 7003, 7004].iter().enumerate() {
        manager.spawn(*port, 0);
        if i % 2 == 1 {
            fill(&mut manager, i, 1);
        }
    }
    assert_eq!(manager.poll(10), vec![7000, 7002, 7004]);
    assert_eq!(manager.len(), 2);
    assert_eq!(manager.bureau(0).port(), 7001);
    assert_eq!(manager.bureau(1).port(), 7003);
}
