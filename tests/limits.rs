use mz_orchestrator::{CpuLimit, LimitError, MemoryLimit};

fn round_cpus(cpus: f64) -> i128 {
    (cpus * 1000.0).round() as i128
}

#[test]
fn cpu_from_and_as_millicpus() {
    let base = CpuLimit::decode_millicpus(0).unwrap();
    let c = base.from_millicpus(2500);
    assert_eq!(c.as_millicpus(), 2500);
}

#[test]
fn cpu_decode_one_and_a_half() {
    let c = CpuLimit::decode_millicpus(round_cpus(1.5)).unwrap();
    assert_eq!(c.as_millicpus(), 1500);
}

#[test]
fn cpu_encode_fifteen_hundred() {
    let c = CpuLimit::decode_millicpus(1500).unwrap();
    assert_eq!(c.as_millicpus() as f64 / 1000.0, 1.5);
}

#[test]
fn cpu_rounds_to_nearest_millicpu() {
    assert_eq!(CpuLimit::decode_millicpus(round_cpus(0.0004)).unwrap().as_millicpus(), 0);
    assert_eq!(CpuLimit::decode_millicpus(round_cpus(0.0015)).unwrap().as_millicpus(), 2);
    assert_eq!(CpuLimit::decode_millicpus(round_cpus(2.2226)).unwrap().as_millicpus(), 2223);
}

#[test]
fn cpu_negative_is_rejected() {
    let r = CpuLimit::decode_millicpus(round_cpus(-1.0));
    assert_eq!(r, Err(LimitError::CpuOutOfRange { millicpus: -1000 }));
    assert_eq!(
        r.unwrap_err().expected(),
        "a float representing a plausible number of CPUs"
    );
}

#[test]
fn cpu_out_of_range_is_rejected() {
    let too_many = usize::MAX as i128 + 1;
    assert_eq!(
        CpuLimit::decode_millicpus(too_many),
        Err(LimitError::CpuOutOfRange { millicpus: too_many })
    );
    assert!(CpuLimit::decode_millicpus(round_cpus(1e30)).is_err());
    assert_eq!(
        CpuLimit::decode_millicpus(usize::MAX as i128).unwrap().as_millicpus(),
        usize::MAX
    );
}

#[test]
fn cpu_round_trip_within_a_millicpu() {
    for m in [0usize, 1, 999, 1500, 123456] {
        let c = CpuLimit::decode_millicpus(m as i128).unwrap();
        let encoded = c.as_millicpus() as f64 / 1000.0;
        let back = CpuLimit::decode_millicpus(round_cpus(encoded)).unwrap();
        assert_eq!(back, c);
    }
}

#[test]
fn memory_decode_two_gib() {
    assert_eq!(
        MemoryLimit::decode("2GiB"),
        Ok(MemoryLimit(2 * 1024 * 1024 * 1024))
    );
}

#[test]
fn memory_decode_plain_bytes() {
    assert_eq!(MemoryLimit::decode("4096"), Ok(MemoryLimit(4096)));
}

#[test]
fn memory_decode_banana_is_rejected() {
    let r = MemoryLimit::decode("banana");
    assert_eq!(
        r,
        Err(LimitError::InvalidMemorySize { input: "banana".to_string() })
    );
    assert_eq!(r.unwrap_err().expected(), "valid size in bytes");
}

#[test]
fn memory_from_parsed() {
    assert_eq!(MemoryLimit::from_parsed("1 KiB", Some(1024)), Ok(MemoryLimit(1024)));
    assert_eq!(
        MemoryLimit::from_parsed("x", None),
        Err(LimitError::InvalidMemorySize { input: "x".to_string() })
    );
}

#[test]
fn memory_encode_small() {
    assert_eq!(MemoryLimit(512).encode(), "512 B");
}

#[test]
fn memory_round_trip_small_sizes() {
    for b in [0u64, 1, 512, 999] {
        let m = MemoryLimit(b);
        assert_eq!(MemoryLimit::decode(&m.encode()), Ok(m));
    }
}
