use remdit::config::{parse_config, parse_key_value, Config, Server};
use remdit::error::ClientError;
use remdit::fileutil::{is_dir, is_exist};
use remdit::select::{random_from, seed_from, select_server, simple_random, stir, SimpleRng};
use remdit::text::decimal_string;

fn server(addr: &str) -> Server {
    Server { addr: addr.to_string(), key: None }
}

#[test]
fn validity_is_a_non_empty_address() {
    assert!(server("a").is_valid());
    assert!(!server("").is_valid());
}

#[test]
fn selection_needs_a_valid_server() {
    assert_eq!(select_server(&vec![], 7).unwrap_err(), ClientError::NoServers);
    assert_eq!(select_server(&vec![server(""), server("")], 7).unwrap_err(), ClientError::NoValidServers);
}

#[test]
fn selection_picks_by_entropy_among_valid_servers() {
    let list = vec![server("a"), server(""), server("b"), server("c")];
    assert_eq!(select_server(&list, 0).unwrap().unwrap().addr, "a");
    assert_eq!(select_server(&list, 1 << 32).unwrap().unwrap().addr, "b");
    assert_eq!(select_server(&list, (5 << 32) | 1).unwrap().unwrap().addr, "c");
    assert_eq!(select_server(&list, 1).unwrap().unwrap().addr, "a");
}

#[test]
fn selection_is_even_over_many_draws() {
    let list = vec![server("a"), server("b"), server(""), server("c")];
    let mut counts = [0usize; 3];
    let mut rng = SimpleRng::from_seed(99);
    for _ in 0..30000 {
        let s = loop {
            if let Some(s) = select_server(&list, rng.next_u64()).unwrap() {
                break s;
            }
        };
        let i = ["a", "b", "c"].iter().position(|x| *x == s.addr).unwrap();
        counts[i] += 1;
    }
    for c in counts {
        assert!(c > 8000 && c < 12000, "{:?}", counts);
    }
    let mut exact = [0usize; 3];
    for e in 0..30000u64 {
        let s = select_server(&list, (e << 32) | 0x2a).unwrap().unwrap();
        exact[["a", "b", "c"].iter().position(|x| *x == s.addr).unwrap()] += 1;
    }
    assert_eq!(exact, [10000, 10000, 10000]);
}

#[test]
fn draws_past_the_even_range_are_rejected() {
    let list = vec![server("a"), server("b"), server("c")];
    // 3 * (2^32 / 3) == 2^32 - 1: only the top high-bit value is rejected.
    assert!(select_server(&list, u64::MAX).unwrap().is_none());
    assert_eq!(select_server(&list, 0xFFFF_FFFE_0000_0000).unwrap().unwrap().addr, "c");
    let two = vec![server("a"), server("b")];
    assert!(select_server(&two, u64::MAX).unwrap().is_some());
}

#[test]
fn generator_steps_are_exact() {
    let mut rng = SimpleRng::from_seed(1);
    assert_eq!(rng.next_u64(), 1103527590);
    assert_eq!(rng.state, 1103527590);
    let mut rng = SimpleRng::from_seed(0);
    assert_eq!(rng.usize(10), 5);
    let mut rng = SimpleRng::new();
    assert!(rng.usize(3) < 3);
    let _ = simple_random();
    assert_eq!(seed_from(None), 12345);
    assert_eq!(seed_from(Some(7)), 7);
    assert_eq!(stir(1), 1103527590);
    assert_eq!(random_from(Some(0)), 12345);
    assert_eq!(random_from(None), 12345u64.wrapping_mul(1103515245).wrapping_add(12345));
    assert_eq!(SimpleRng::from_reading(None).state, 12345);
}

#[test]
fn even_clock_seeds_still_reach_every_server() {
    let list = vec![server("a"), server("b")];
    let mut seen = [false; 2];
    for k in 0..64u64 {
        let s = select_server(&list, random_from(Some(k * 1000))).unwrap().unwrap();
        seen[if s.addr == "a" { 0 } else { 1 }] = true;
    }
    assert_eq!(seen, [true, true]);
}

#[test]
fn unicode_white_space_is_trimmed() {
    let c = parse_config("\u{3000}[[servers]]\u{a0}\n\u{2003}addr = x\u{3000}\n").unwrap();
    assert_eq!(c.servers.len(), 1);
    assert_eq!(c.servers[0].addr, "x");
}

#[test]
fn decimal_text_is_exact() {
    assert_eq!(decimal_string(0), "0");
    assert_eq!(decimal_string(12345), "12345");
    assert_eq!(decimal_string(u64::MAX), "18446744073709551615");
}

#[test]
fn key_value_lines_are_read() {
    assert_eq!(parse_key_value("addr = \"https://x\""), Some(("addr".to_string(), "https://x".to_string())));
    assert_eq!(parse_key_value("key='k'"), Some(("key".to_string(), "k".to_string())));
    assert_eq!(parse_key_value(" a = b = c "), Some(("a".to_string(), "b = c".to_string())));
    assert_eq!(parse_key_value("v = \""), Some(("v".to_string(), "\"".to_string())));
    assert_eq!(parse_key_value("no equals"), None);
}

#[test]
fn config_lists_servers_in_order() {
    let text = "# servers\n[[servers]]\naddr = \"https://a\"\nkey = \"k1\"\n\n[[servers]]\r\n  addr = b\nother = 1\n";
    let c = parse_config(text).unwrap();
    assert_eq!(c.servers.len(), 2);
    assert_eq!(c.servers[0].addr, "https://a");
    assert_eq!(c.servers[0].key, Some("k1".to_string()));
    assert_eq!(c.servers[1].addr, "b");
    assert_eq!(c.servers[1].key, None);
}

#[test]
fn config_ignores_keys_outside_sections() {
    let c = parse_config("addr = x\n[[servers]]").unwrap();
    assert_eq!(c.servers.len(), 1);
    assert_eq!(c.servers[0].addr, "");
    assert_eq!(parse_config("").unwrap().servers.len(), 0);
}

#[test]
fn default_config_uses_the_built_in_server() {
    assert_eq!(Config::default().servers.len(), 0);
    assert_eq!(Config::with_default_server(None).servers.len(), 0);
    assert_eq!(Config::with_default_server(Some("")).servers.len(), 0);
    let c = Config::with_default_server(Some("https://d"));
    assert_eq!(c.servers.len(), 1);
    assert_eq!(c.servers[0].addr, "https://d");
}

#[test]
fn file_checks_see_the_file_system() {
    assert!(is_exist("/"));
    assert!(is_dir("/"));
    assert!(!is_exist("/no/such/path/here"));
    assert!(!is_dir("/no/such/path/here"));
}
