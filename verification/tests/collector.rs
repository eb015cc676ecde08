use syswatch_tui::collector::{formatar_bytes, formatar_uptime};

#[test]
fn test_formatar_bytes_gb() {
    assert_eq!(formatar_bytes(1024 * 1024 * 1024), "1.0 GB");
}

#[test]
fn test_formatar_bytes_mb() {
    assert_eq!(formatar_bytes(1024 * 1024), "1.0 MB");
}

#[test]
fn test_formatar_bytes_kb() {
    assert_eq!(formatar_bytes(1024), "1.0 KB");
}

#[test]
fn test_formatar_bytes_b() {
    assert_eq!(formatar_bytes(512), "512 B");
}

#[test]
fn test_formatar_uptime_dias() {
    assert_eq!(formatar_uptime(90061), "1d 1h 1m 1s");
}

#[test]
fn test_formatar_uptime_horas() {
    assert_eq!(formatar_uptime(3661), "1h 1m 1s");
}

/// The text must be what `{:.1}` gives for the size as an `f64`, ties included.
#[test]
fn formatar_bytes_igual_ao_f64() {
    let casos: Vec<u64> = vec![
        0, 1, 1023, 1024, 1075, 1126, 1280, 1331, 1536, 1792, 1843, 10 * 1024 + 512,
        1024 * 1024 + 52428, 1024 * 1024 + 104857, 5 * 1024 * 1024 / 4,
        1342177280, 1879048192, 1073741824 * 3 / 2 + 53687091, (1u64 << 53) + 1,
        (1u64 << 53) + 3, (1u64 << 60) + 12345, u64::MAX, u64::MAX - 1024,
        9007199254740993, 18014398509481985, 123456789012345678,
    ];
    for b in casos {
        let esperado = if b >= 1024 * 1024 * 1024 {
            format!("{:.1} GB", b as f64 / (1024u64 * 1024 * 1024) as f64)
        } else if b >= 1024 * 1024 {
            format!("{:.1} MB", b as f64 / (1024u64 * 1024) as f64)
        } else if b >= 1024 {
            format!("{:.1} KB", b as f64 / 1024u64 as f64)
        } else {
            format!("{} B", b)
        };
        assert_eq!(formatar_bytes(b), esperado, "bytes = {}", b);
    }
}
