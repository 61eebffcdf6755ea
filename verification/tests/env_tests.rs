use lib::env::{env_block_offset, getenv, setenv, split_entry, unsetenv, EnvStore};

fn entries(list: &[&str]) -> Vec<Vec<u8>> {
    list.iter().map(|s| s.as_bytes().to_vec()).collect()
}

#[test]
fn split_entry_uses_first_separator() {
    assert_eq!(split_entry(b"PATH=/bin"), Some((b"PATH".to_vec(), b"/bin".to_vec())));
    assert_eq!(split_entry(b"A=B=C"), Some((b"A".to_vec(), b"B=C".to_vec())));
    assert_eq!(split_entry(b"=x"), Some((Vec::new(), b"x".to_vec())));
    assert_eq!(split_entry(b"EMPTY="), Some((b"EMPTY".to_vec(), Vec::new())));
    assert_eq!(split_entry(b"NOSEP"), None);
    assert_eq!(split_entry(b""), None);
}

#[test]
fn env_block_starts_after_arguments() {
    assert_eq!(env_block_offset(0), 1);
    assert_eq!(env_block_offset(3), 4);
    assert_eq!(env_block_offset(-2), 1);
}

#[test]
fn init_takes_entries_and_last_one_wins() {
    let mut store = EnvStore::new();
    store.init(&entries(&["HOME=/root", "JUNK", "TERM=vt100", "HOME=/home/user"]));
    assert_eq!(getenv(&store, b"HOME"), Some(b"/home/user".to_vec()));
    assert_eq!(getenv(&store, b"TERM"), Some(b"vt100".to_vec()));
    assert_eq!(getenv(&store, b"JUNK"), None);
    assert_eq!(lib::env::env(&store).len(), 2);
}

#[test]
fn init_replaces_previous_contents() {
    let mut store = EnvStore::new();
    setenv(&mut store, b"OLD", b"1").unwrap();
    store.init(&entries(&["NEW=2"]));
    assert_eq!(getenv(&store, b"OLD"), None);
    assert_eq!(getenv(&store, b"NEW"), Some(b"2".to_vec()));
}

#[test]
fn read_after_write() {
    let mut store = EnvStore::new();
    assert_eq!(getenv(&store, b"X"), None);
    assert!(setenv(&mut store, b"X", b"1").is_ok());
    assert!(setenv(&mut store, b"Y", b"2").is_ok());
    assert_eq!(getenv(&store, b"X"), Some(b"1".to_vec()));
    assert!(setenv(&mut store, b"X", b"3").is_ok());
    assert_eq!(getenv(&store, b"X"), Some(b"3".to_vec()));
    assert_eq!(getenv(&store, b"Y"), Some(b"2".to_vec()));
    assert!(unsetenv(&mut store, b"X").is_ok());
    assert_eq!(getenv(&store, b"X"), None);
    assert_eq!(getenv(&store, b"Y"), Some(b"2".to_vec()));
    assert!(unsetenv(&mut store, b"absent").is_ok());
}

#[test]
fn env_lists_each_variable_once() {
    let mut store = EnvStore::new();
    setenv(&mut store, b"A", b"1").unwrap();
    setenv(&mut store, b"B", b"2").unwrap();
    setenv(&mut store, b"A", b"3").unwrap();
    let mut pairs = lib::env::env(&store);
    pairs.sort();
    assert_eq!(pairs, vec![(b"A".to_vec(), b"3".to_vec()), (b"B".to_vec(), b"2".to_vec())]);
}

#[test]
fn clear_empties() {
    let mut store = EnvStore::new();
    setenv(&mut store, b"A", b"1").unwrap();
    store.clear();
    assert!(lib::env::env(&store).is_empty());
}
