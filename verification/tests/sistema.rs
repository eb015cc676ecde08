use syswatch_tui::collector::MetricsCollector;
use syswatch_tui::processos::{
    fracao_cpu_proc, paginas_statm, pid_de, tempos_proc, top_processos, MAX_PROCESSOS,
};
use syswatch_tui::sistema::{
    aparar_texto, detectar_os, faixa_frequencia, hostname_de, is_termux, temperatura_mili,
};

#[test]
fn termux_detectado() {
    assert!(is_termux(true, None, false));
    assert!(is_termux(false, Some("/data/data/com.termux/files/usr"), false));
    assert!(is_termux(false, None, true));
    assert!(!is_termux(false, Some("/usr"), false));
    assert!(!is_termux(false, None, false));
}

#[test]
fn os_por_pretty_name() {
    let t = "NAME=\"Linux Mint\"\nPRETTY_NAME=\"Linux Mint 22.3\"\nPRETTY_NAME=\"outro\"\n";
    assert_eq!(detectar_os(false, Some(t)), "Linux Mint 22.3");
    assert_eq!(detectar_os(false, Some("PRETTY_NAME=PRETTY_NAME=\"\"x\"\"")), "x");
    assert_eq!(detectar_os(false, Some("NAME=Debian\n")), "Linux");
    assert_eq!(detectar_os(false, None), "Linux");
    assert_eq!(detectar_os(true, Some(t)), "Android (Termux)");
}

#[test]
fn os_nunca_vazio() {
    for t in [
        None,
        Some(""),
        Some("PRETTY_NAME=\"Ubuntu 24.04 LTS\"\n"),
        Some("PRETTY_NAME="),
        Some("PRETTY_NAME=\"\"\n"),
        Some("NAME=x\nPRETTY_NAME=\n"),
    ] {
        assert!(!detectar_os(false, t).is_empty());
        let c = MetricsCollector::new(false, None, false, t);
        assert!(!c.os_nome().is_empty());
    }
}

#[test]
fn os_pretty_name_vazio_vira_linux() {
    assert_eq!(detectar_os(false, Some("PRETTY_NAME=")), "Linux");
    assert_eq!(detectar_os(false, Some("PRETTY_NAME=\"\"\nPRETTY_NAME=Arch\n")), "Linux");
    assert_eq!(detectar_os(false, Some("PRETTY_NAME=\"\"\"\"")), "Linux");
    assert_eq!(MetricsCollector::new(false, None, false, Some("PRETTY_NAME=")).os_nome(), "Linux");
}

#[test]
fn coletor_guarda_ambiente() {
    let c = MetricsCollector::new(false, Some("/x/com.termux"), false, None);
    assert!(c.em_termux());
    assert_eq!(c.os_nome(), "Android (Termux)");
    let c = MetricsCollector::new(false, None, false, Some("PRETTY_NAME=Arch"));
    assert!(!c.em_termux());
    assert_eq!(c.os_nome(), "Arch");
}

#[test]
fn faixa_disponiveis() {
    assert_eq!(faixa_frequencia("800000 1600000 3900000\n", None, None), "800 - 3900 MHz (3 níveis)");
    assert_eq!(faixa_frequencia("2000000 x 500000", Some("1"), Some("2")), "500 - 2000 MHz (2 níveis)");
}

#[test]
fn faixa_min_max() {
    assert_eq!(faixa_frequencia("", Some("800000\n"), Some("3900000\n")), "800 - 3900 MHz");
    assert_eq!(faixa_frequencia("", None, Some("3900000\n")), "até 3900 MHz");
    assert_eq!(faixa_frequencia("lixo", Some("800000"), Some("?")), "a partir de 800 MHz");
    assert_eq!(faixa_frequencia("", None, None), "não disponível");
}

#[test]
fn temperatura() {
    assert_eq!(temperatura_mili("38000\n"), Some(38000));
    assert_eq!(temperatura_mili("-5000"), Some(-5000));
    assert_eq!(temperatura_mili("-9223372036854775808"), Some(i64::MIN));
    assert_eq!(temperatura_mili("9223372036854775808"), None);
    assert_eq!(temperatura_mili("abc"), None);
}

#[test]
fn textos_aparados() {
    assert_eq!(aparar_texto("  powersave\n"), "powersave");
    assert_eq!(hostname_de(Some("maquina\n")), "maquina");
    assert_eq!(hostname_de(None), "linux");
}

#[test]
fn processos() {
    assert_eq!(pid_de("1234"), Some(1234));
    assert_eq!(pid_de("self"), None);
    assert_eq!(pid_de("4294967296"), None);
    let stat = "42 (bash) S 1 42 42 0 -1 4194560 1 2 3 4 150 25 0 0 20 0 1 0";
    assert_eq!(tempos_proc(stat), Some((150, 25)));
    assert_eq!(tempos_proc("1 2 3"), None);
    assert_eq!(paginas_statm("1000 250 30 4 0 60 0\n"), 250);
    assert_eq!(paginas_statm(""), 0);
}

#[test]
fn parcela_de_cpu() {
    assert_eq!(fracao_cpu_proc(Some(100), Some(130), 10), Some((10, 10)));
    assert_eq!(fracao_cpu_proc(Some(100), Some(105), 10), Some((5, 10)));
    assert_eq!(fracao_cpu_proc(Some(100), Some(90), 10), Some((0, 10)));
    assert_eq!(fracao_cpu_proc(Some(100), Some(105), 0), None);
    assert_eq!(fracao_cpu_proc(None, Some(105), 10), None);
    assert_eq!(fracao_cpu_proc(Some(1), None, 10), None);
}

#[test]
fn top_processos_ordem_estavel() {
    assert_eq!(top_processos(&[1, 5, 5, 3]), vec![1, 2, 3, 0]);
    assert_eq!(top_processos(&[0, 0, 0]), vec![0, 1, 2]);
    assert_eq!(top_processos(&[]), Vec::<usize>::new());
    assert_eq!(top_processos(&[7]), vec![0]);
}

#[test]
fn top_processos_corta_em_quinze() {
    let chaves: Vec<u64> = (0..40u64).map(|i| (i * 7) % 20).collect();
    let r = top_processos(&chaves);
    assert_eq!(r.len(), MAX_PROCESSOS);
    let mut todos: Vec<usize> = (0..chaves.len()).collect();
    todos.sort_by(|&a, &b| chaves[b].cmp(&chaves[a]));
    todos.truncate(15);
    assert_eq!(r, todos);
}

#[test]
fn top_processos_como_f32() {
    let cpu: Vec<f32> = vec![0.0, 12.5, 100.0, 12.5, 3.25, 0.0, 99.9];
    let chaves: Vec<u64> = cpu.iter().map(|c| c.to_bits() as u64).collect();
    let mut esperado: Vec<usize> = (0..cpu.len()).collect();
    esperado.sort_by(|&a, &b| cpu[b].partial_cmp(&cpu[a]).unwrap());
    assert_eq!(top_processos(&chaves), esperado);
    assert_eq!(top_processos(&chaves), vec![2, 6, 1, 3, 4, 0, 5]);
}
