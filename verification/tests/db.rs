use proxy_pulse::db::{needs_check_logs_repair, needs_unique_migration};

#[test]
fn missing_tables_need_nothing() {
    assert!(!needs_check_logs_repair(&None));
    assert!(!needs_unique_migration(&None));
}

#[test]
fn broken_check_logs_reference_is_repaired() {
    let broken = "CREATE TABLE check_logs (id INTEGER, FOREIGN KEY (proxy_id) REFERENCES \"proxies_old\"(id))";
    assert!(needs_check_logs_repair(&Some(broken.to_string())));
    let sound = "CREATE TABLE check_logs (id INTEGER, FOREIGN KEY (proxy_id) REFERENCES proxies(id))";
    assert!(!needs_check_logs_repair(&Some(sound.to_string())));
}

#[test]
fn old_unique_key_is_migrated_once() {
    let old = "CREATE TABLE proxies (id INTEGER, ip TEXT, port INTEGER, UNIQUE(ip, port))";
    assert!(needs_unique_migration(&Some(old.to_string())));
    let new = "CREATE TABLE proxies (id INTEGER, ip TEXT, port INTEGER, protocol TEXT, UNIQUE(ip, port, protocol))";
    assert!(!needs_unique_migration(&Some(new.to_string())));
}
