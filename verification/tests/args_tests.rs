use lib::args::ArgsReader;

/// Drives a reader over a startup vector (`None` stands for a null pointer).
fn gather(argc: isize, argv: Option<&[Option<&str>]>) -> (Vec<Vec<u8>>, Vec<usize>) {
    let mut reader = ArgsReader::new(argc, argv.is_none());
    let mut read = Vec::new();
    while let Some(index) = reader.next_slot() {
        read.push(index);
        let slot = argv.unwrap()[index].map(|s| s.as_bytes().to_vec());
        reader.accept(slot);
    }
    (reader.into_values(), read)
}

#[test]
fn gathers_all_arguments() {
    let argv = [Some("prog"), Some("-v"), None];
    assert_eq!(gather(2, Some(&argv)), (vec![b"prog".to_vec(), b"-v".to_vec()], vec![0, 1]));
}

#[test]
fn stops_at_null() {
    let argv = [Some("prog"), None, Some("never")];
    assert_eq!(gather(3, Some(&argv)), (vec![b"prog".to_vec()], vec![0, 1]));
}

#[test]
fn negative_or_zero_count_gives_nothing() {
    let argv = [Some("prog"), None];
    assert_eq!(gather(-1, Some(&argv)), (Vec::new(), Vec::new()));
    assert_eq!(gather(0, Some(&argv)), (Vec::new(), Vec::new()));
}

#[test]
fn null_vector_gives_nothing() {
    assert_eq!(gather(4, None), (Vec::new(), Vec::new()));
}

#[test]
fn same_memory_gives_same_arguments() {
    let argv = [Some("prog"), Some("a"), None, Some("x")];
    let first = gather(4, Some(&argv));
    let second = gather(4, Some(&argv));
    assert_eq!(first, second);
    assert_eq!(first.0, vec![b"prog".to_vec(), b"a".to_vec()]);
}
