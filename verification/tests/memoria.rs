use syswatch_tui::collector::MemoryMetrics;
use syswatch_tui::memoria::{parsear_meminfo, MemAndroid};

fn mem(total: u64, disp: u64, st: u64, sl: u64) -> MemAndroid {
    MemAndroid {
        total_kb: total,
        livre_kb: 0,
        disponivel_kb: disp,
        buffers_kb: 0,
        cached_kb: 0,
        swap_total_kb: st,
        swap_livre_kb: sl,
    }
}

#[test]
fn mem_usado_amostra() {
    let mem = parsear_meminfo("MemTotal:       15850000 kB\nMemFree:         1000000 kB\nMemAvailable:    6000000 kB\n");
    assert!(mem.usado_kb() <= mem.total_kb);
    assert_eq!(mem.usado_kb(), 9850000);
}

#[test]
fn meminfo_campos() {
    let t = "MemTotal:       16000 kB\nMemFree:  100 kB\nMemAvailable: 9000 kB\nBuffers: 5 kB\nCached: 6 kB\nSwapCached: 7 kB\nSwapTotal: 2048 kB\nSwapFree: 1024 kB\n";
    let m = parsear_meminfo(t);
    assert_eq!(m.total_kb, 16000);
    assert_eq!(m.livre_kb, 100);
    assert_eq!(m.disponivel_kb, 9000);
    assert_eq!(m.buffers_kb, 5);
    assert_eq!(m.cached_kb, 6);
    assert_eq!(m.swap_total_kb, 2048);
    assert_eq!(m.swap_livre_kb, 1024);
    assert_eq!(m.usado_kb(), 7000);
    assert_eq!(m.swap_usado_kb(), 1024);
}

#[test]
fn meminfo_ultima_linha_vence_e_invalidos_zeram() {
    let m = parsear_meminfo("MemTotal: 10\nMemTotal: 20\nMemFree: abc\nMemAvailable:\nBuffers: +7\r\n");
    assert_eq!(m.total_kb, 20);
    assert_eq!(m.livre_kb, 0);
    assert_eq!(m.disponivel_kb, 0);
    assert_eq!(m.buffers_kb, 7);
}

#[test]
fn meminfo_vazio() {
    let m = parsear_meminfo("");
    assert_eq!(m.total_kb, 0);
    assert_eq!(m.fracao_ram(), None);
    assert_eq!(m.fracao_swap(), None);
}

#[test]
fn usado_satura_em_zero() {
    let m = mem(100, 200, 10, 50);
    assert_eq!(m.usado_kb(), 0);
    assert_eq!(m.swap_usado_kb(), 0);
}

#[test]
fn fracao_ram_no_intervalo() {
    let m = mem(1000, 250, 0, 0);
    assert_eq!(m.fracao_ram(), Some((750, 1000)));
    assert_eq!(m.fracao_swap(), None);
    let (u, t) = m.fracao_ram().unwrap();
    let pct = u as f32 / t as f32 * 100.0;
    assert!(pct >= 0.0 && pct <= 100.0);
}

#[test]
fn memory_metrics_em_bytes() {
    let m = mem(1000, 250, 64, 16);
    let mm = MemoryMetrics::de_mem(&m).unwrap();
    assert_eq!(mm.total, 1024000);
    assert_eq!(mm.usado, 750 * 1024);
    assert_eq!(mm.livre, 250 * 1024);
    assert_eq!(mm.swap_total, 64 * 1024);
    assert_eq!(mm.swap_usado, 48 * 1024);
}

#[test]
fn memory_metrics_transborda() {
    let m = mem(u64::MAX / 1000, 0, 0, 0);
    assert!(MemoryMetrics::de_mem(&m).is_none());
}
