use walle_core::bot_map::BotMap;
use walle_core::structs::{Bot, Selft};

fn selft(user_id: &str) -> Selft {
    Selft { platform: "".to_owned(), user_id: user_id.to_owned() }
}

fn check_bot_map() {
    let mut map: BotMap<u32> = BotMap::new();
    let seq = map.new_connect(100);
    assert_eq!(seq, 0);
    let seq = map.new_connect(101);
    assert_eq!(seq, 1);
    let mut seqs = map.conn_seqs();
    seqs.sort();
    assert_eq!(seqs, vec![0, 1]);
    let self0 = selft("0");
    let self1 = selft("1");
    map.connect_update(0, vec![Bot { selft: self0.clone(), online: true }], "");
    assert_eq!(map.bot_conn_count(&self0), Some(1));
    assert!(map.conn_bot_count(0) == Some(1));
    assert!(map.bot_conn_count(&self1).is_none());
    assert!(map.get_bot_tx(&self0).is_some());
    assert!(map.get_bot_tx(&self1).is_none());
}

#[test]
fn lib_test_bot_map() {
    check_bot_map();
}

#[test]
fn mod_test_bot_map() {
    check_bot_map();
}

#[test]
fn get_bot_tx_gives_the_senders_in_join_order() {
    let mut map: BotMap<u32> = BotMap::new();
    let a = map.new_connect(10);
    let b = map.new_connect(20);
    let bot = selft("x");
    map.connect_update(b, vec![Bot { selft: bot.clone(), online: true }], "impl-b");
    map.connect_update(a, vec![Bot { selft: bot.clone(), online: true }], "impl-a");
    assert_eq!(map.get_bot_tx(&bot), Some(vec![20, 10]));
    assert!(map.contains_bot(&bot));
}

#[test]
fn closing_a_connection_forgets_its_only_bot() {
    let mut map: BotMap<u32> = BotMap::new();
    let a = map.new_connect(1);
    let b = map.new_connect(2);
    let x = selft("x");
    let y = selft("y");
    map.connect_update(a, vec![Bot { selft: x.clone(), online: true }, Bot { selft: y.clone(), online: true }], "");
    map.connect_update(b, vec![Bot { selft: y.clone(), online: true }], "");
    map.connect_closs(a);
    assert_eq!(map.get_bot_tx(&x), None);
    assert_eq!(map.get_bot_tx(&y), Some(vec![2]));
    assert_eq!(map.conn_seqs(), vec![b]);
    assert_eq!(map.conn_bot_count(a), None);
}

#[test]
fn connect_then_close_restores_the_registry() {
    let mut map: BotMap<u32> = BotMap::new();
    let a = map.new_connect(1);
    map.connect_update(a, vec![Bot { selft: selft("x"), online: true }], "");
    let c = map.new_connect(9);
    map.connect_closs(c);
    assert_eq!(map.conn_seqs(), vec![a]);
    assert_eq!(map.get_bot_tx(&selft("x")), Some(vec![1]));
    assert_eq!(map.next_conn_seq(), 2);
}

#[test]
fn online_then_offline_leaves_nothing() {
    let mut map: BotMap<u32> = BotMap::new();
    let a = map.new_connect(1);
    map.connect_update(
        a,
        vec![Bot { selft: selft("x"), online: true }, Bot { selft: selft("x"), online: false }],
        "",
    );
    assert_eq!(map.get_bot_tx(&selft("x")), None);
    assert_eq!(map.conn_bot_count(a), Some(0));
    assert!(map.bot_statuses().is_empty());
}

#[test]
fn offline_report_of_an_unserved_bot_changes_nothing() {
    let mut map: BotMap<u32> = BotMap::new();
    let a = map.new_connect(1);
    let b = map.new_connect(2);
    map.connect_update(a, vec![Bot { selft: selft("x"), online: true }], "");
    map.connect_update(b, vec![Bot { selft: selft("x"), online: false }], "");
    assert_eq!(map.get_bot_tx(&selft("x")), Some(vec![1]));
    let statuses = map.bot_statuses();
    assert_eq!(statuses.len(), 1);
    assert!(statuses[0].online);
}

#[test]
fn reporting_the_same_bots_twice_changes_nothing() {
    let mut map: BotMap<u32> = BotMap::new();
    let a = map.new_connect(10);
    let x = selft("x");
    let y = selft("y");
    let report = vec![
        Bot { selft: x.clone(), online: false },
        Bot { selft: x.clone(), online: true },
        Bot { selft: y.clone(), online: true },
    ];
    map.connect_update(a, report.clone(), "i");
    let once = (map.bot_conn_count(&x), map.bot_conn_count(&y), map.conn_bot_count(a));
    map.connect_update(a, report, "i");
    let twice = (map.bot_conn_count(&x), map.bot_conn_count(&y), map.conn_bot_count(a));
    assert_eq!(once, twice);
    assert_eq!(twice, (Some(1), Some(1), Some(2)));
}
