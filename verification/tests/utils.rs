use nucleus::memory::{parse_memory, parse_memory_checked, parse_memory_upper, MemoryError};

#[test]
fn test_parse_memory() {
    assert_eq!(parse_memory("max").unwrap(), "max");
    assert_eq!(parse_memory("512M").unwrap(), (512 * 1024 * 1024).to_string());
    assert_eq!(parse_memory("1G").unwrap(), (1024 * 1024 * 1024).to_string());
    assert_eq!(parse_memory("10k").unwrap(), (10 * 1024).to_string());
    assert_eq!(parse_memory("100").unwrap(), "100");
}

#[test]
fn test_parse_memory_invalid() {
    assert!(parse_memory("abc").is_err());
}

#[test]
fn parse_memory_zero_and_plus_sign() {
    assert_eq!(parse_memory("0G").unwrap(), "0");
    assert_eq!(parse_memory("+2K").unwrap(), "2048");
    assert_eq!(parse_memory("3g").unwrap(), "3221225472");
}

#[test]
fn parse_memory_rejects_malformed_numbers() {
    assert_eq!(parse_memory("G"), Err(MemoryError::InvalidValue));
    assert_eq!(parse_memory("+"), Err(MemoryError::InvalidValue));
    assert_eq!(parse_memory("-5M"), Err(MemoryError::InvalidValue));
    assert_eq!(parse_memory("1.5G"), Err(MemoryError::InvalidValue));
    assert_eq!(parse_memory(""), Err(MemoryError::InvalidValue));
    assert_eq!(parse_memory("MAX"), Err(MemoryError::InvalidValue));
    assert_eq!(parse_memory("99999999999999999999"), Err(MemoryError::InvalidValue));
}

#[test]
fn parse_memory_checked_reports_overflow() {
    assert_eq!(parse_memory_checked("17179869184G"), None);
    assert_eq!(parse_memory_checked("16777215G"), Some(Ok("18014397435740160".to_string())));
    assert_eq!(parse_memory_checked("max"), Some(Ok("max".to_string())));
    assert_eq!(parse_memory_checked("x"), Some(Err(MemoryError::InvalidValue)));
}

#[test]
fn parse_memory_output_reads_back_to_itself() {
    for input in ["512M", "1G", "10k", "100", "0K", "max"] {
        let once = parse_memory(input).unwrap();
        let twice = parse_memory(&once).unwrap();
        assert_eq!(once, twice);
    }
    let out = parse_memory_upper("7M").unwrap();
    assert_eq!(parse_memory_upper(&out).unwrap(), out);
}
