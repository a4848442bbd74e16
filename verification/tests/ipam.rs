use nucleus::ipam::{allocate_ip, IpamError};

#[test]
fn first_free_address() {
    assert_eq!(allocate_ip(&vec![]).unwrap(), "10.0.0.2");
    let used = vec!["10.0.0.2".to_string(), "10.0.0.3".to_string(), "10.0.0.5".to_string()];
    assert_eq!(allocate_ip(&used).unwrap(), "10.0.0.4");
}

#[test]
fn exhausted_subnet() {
    let used: Vec<String> = (2..254).map(|i| format!("10.0.0.{}", i)).collect();
    assert_eq!(allocate_ip(&used), Err(IpamError::Exhausted));
    let mut almost = used.clone();
    almost.retain(|ip| ip != "10.0.0.253");
    assert_eq!(allocate_ip(&almost).unwrap(), "10.0.0.253");
}
