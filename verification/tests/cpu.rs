use syswatch_tui::cpu::{
    core_online, fracao_freq, fracao_uso, freq_mhz, khz_de, parse_stat_linha, parsear_stat, uso_por_core,
    StatSnapshot,
};

#[test]
fn stat_amostra_tem_cores() {
    let (global, cores) = parsear_stat("cpu  4705 356 584 3699 23 23 0 0 0 0\ncpu0 1393 280 278 1044 2 20 0 0 0 0\nintr 114930548\n");
    assert!(global.total() > 0 || cores.len() > 0);
    assert_eq!(global.total(), 9390);
    assert_eq!(cores.len(), 1);
}

#[test]
fn parse_linha_campos() {
    let s = parse_stat_linha(&["cpu0", "1", "2", "3", "4", "5", "6", "7", "8", "9"]);
    assert_eq!((s.user, s.nice, s.system, s.idle, s.iowait, s.irq, s.softirq, s.steal), (1, 2, 3, 4, 5, 6, 7, 8));
    let s = parse_stat_linha(&["cpu", "10", "x", "30"]);
    assert_eq!((s.user, s.nice, s.system, s.idle, s.steal), (10, 0, 30, 0, 0));
}

#[test]
fn parsear_stat_global_e_cores() {
    let t = "cpu  10 0 10 80 0 0 0 0\ncpu0 5 0 5 40 0 0 0 0 0 0\ncpu1 5 0 5 40 0 0 0 0 0 0\ncpux 1 1 1 1\ncpu+2 1 0 0 0\nintr 1 2 3\n\n";
    let (g, cores) = parsear_stat(t);
    assert_eq!(g.user, 10);
    assert_eq!(g.idle, 80);
    assert_eq!(cores.len(), 3);
    assert_eq!(cores[0].user, 5);
    assert_eq!(cores[2].user, 1);
}

#[test]
fn total_e_ocupado() {
    let s = StatSnapshot { user: 1, nice: 2, system: 3, idle: 40, iowait: 5, irq: 6, softirq: 7, steal: 8 };
    assert!(s.total_cabe());
    assert_eq!(s.total(), 72);
    assert_eq!(s.ocupado(), 27);
    let grande = StatSnapshot { user: u64::MAX, nice: 1, ..Default::default() };
    assert!(!grande.total_cabe());
}

#[test]
fn uso_cinquenta_por_cento() {
    let antes = StatSnapshot { user: 100, idle: 900, ..Default::default() };
    let depois = StatSnapshot { user: 150, idle: 950, ..Default::default() };
    assert_eq!(fracao_uso(&antes, &depois), Some((50, 100)));
}

#[test]
fn uso_ocioso_zero() {
    let antes = StatSnapshot { idle: 500, ..Default::default() };
    let depois = StatSnapshot { idle: 600, ..Default::default() };
    assert_eq!(fracao_uso(&antes, &depois), Some((0, 100)));
}

#[test]
fn uso_pleno() {
    let antes = StatSnapshot { user: 0, idle: 0, ..Default::default() };
    let depois = StatSnapshot { user: 100, idle: 0, ..Default::default() };
    assert_eq!(fracao_uso(&antes, &depois), Some((100, 100)));
}

#[test]
fn uso_sem_avanco() {
    let s = StatSnapshot { user: 7, idle: 9, ..Default::default() };
    assert_eq!(fracao_uso(&s, &s), None);
}

#[test]
fn uso_limitado_ao_total() {
    // idle went back while busy time grew: the busy delta exceeds the total delta
    let antes = StatSnapshot { user: 0, idle: 100, ..Default::default() };
    let depois = StatSnapshot { user: 150, idle: 0, ..Default::default() };
    assert_eq!(fracao_uso(&antes, &depois), Some((50, 50)));
}

#[test]
fn frequencias() {
    assert_eq!(khz_de(Some(" 1800000\n")), 1800000);
    assert_eq!(khz_de(Some("x")), 0);
    assert_eq!(khz_de(None), 0);
    assert_eq!(freq_mhz(Some("3900000\n"), None), (3900, 0));
    assert_eq!(freq_mhz(Some("999"), Some("2400123")), (0, 2400));
}

#[test]
fn online() {
    assert!(core_online(None));
    assert!(core_online(Some("1\n")));
    assert!(!core_online(Some("0\n")));
    assert!(!core_online(Some("2")));
    assert!(core_online(Some("lixo")));
    assert!(core_online(Some("300")));
}

#[test]
fn carga_por_frequencia() {
    assert_eq!(fracao_freq(500, 1000, true), Some((500, 1000)));
    assert_eq!(fracao_freq(1500, 1000, true), Some((1000, 1000)));
    assert_eq!(fracao_freq(500, 1000, false), None);
    assert_eq!(fracao_freq(500, 0, true), None);
}

#[test]
fn usos_por_core() {
    let a = vec![
        StatSnapshot { user: 0, idle: 0, ..Default::default() },
        StatSnapshot { user: 0, idle: 0, ..Default::default() },
        StatSnapshot { user: 5, ..Default::default() },
    ];
    let d = vec![
        StatSnapshot { user: 10, idle: 30, ..Default::default() },
        StatSnapshot { user: 0, idle: 0, ..Default::default() },
    ];
    let g = StatSnapshot::default();
    let g2 = StatSnapshot { system: 1, idle: 1, ..Default::default() };
    assert_eq!(uso_por_core(&a, &d, &g, &g2), (vec![Some((10, 40)), None], true));
    assert_eq!(uso_por_core(&[], &d, &g, &g2), (vec![Some((1, 2))], false));
}
