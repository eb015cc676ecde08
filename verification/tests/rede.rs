use syswatch_tui::rede::{obter_ip_local, parsear_ifconfig, InterfaceInfo};
use syswatch_tui::rede_linux::{flags_e_mtu, ler_interfaces_linux, parsear_ips, parsear_net_dev};

const NET_DEV: &str = "Inter-|   Receive                                                |  Transmit\n face |bytes    packets errs drop fifo frame compressed multicast|bytes    packets errs drop fifo colls carrier compressed\n    lo:  1000      10    0    0    0     0          0         0     1000      10    0    0    0     0       0          0\n  eth0: 5000  50 0 0 0 0 0 0 7000 70 0 0 0 0 0 0\n";

#[test]
fn net_dev_amostra_tem_loopback() {
    let mapa = parsear_net_dev(NET_DEV);
    assert!(mapa.iter().any(|(n, _)| n == "lo"), "loopback deve estar presente");
}

#[test]
fn net_dev_colunas() {
    let m = parsear_net_dev(NET_DEV);
    assert_eq!(m.len(), 2);
    assert_eq!(m[0], ("lo".to_string(), (1000, 1000, 10, 10)));
    assert_eq!(m[1], ("eth0".to_string(), (5000, 7000, 50, 70)));
}

#[test]
fn net_dev_ultima_linha_vence() {
    let t = "a\nb\neth0: 1 2 3 4 5 6 7 8 9 10\nsem dois pontos\n\neth0: 11 12\n  wl:\n";
    let m = parsear_net_dev(t);
    assert_eq!(m, vec![("eth0".to_string(), (11, 0, 12, 0)), ("wl".to_string(), (0, 0, 0, 0))]);
}

#[test]
fn net_dev_so_cabecalho() {
    assert!(parsear_net_dev("a\nb\n").is_empty());
    assert!(parsear_net_dev("").is_empty());
}

const IP_ADDR: &str = "1: lo: <LOOPBACK,UP,LOWER_UP> mtu 65536 qdisc noqueue\n    link/loopback 00:00:00:00:00:00 brd 00:00:00:00:00:00\n    inet 127.0.0.1/8 scope host lo\n    inet6 ::1/128 scope host\n2: eth0: <BROADCAST,MULTICAST,UP> mtu 1500\n    inet 10.0.0.5/24 brd 10.0.0.255 scope global eth0\n    inet 10.0.0.6/24 scope global secondary eth0\n3: wlan0: <BROADCAST> mtu 1500\n";

#[test]
fn ips_primeiro_endereco() {
    let ips = parsear_ips(IP_ADDR);
    assert_eq!(
        ips,
        vec![("lo".to_string(), "127.0.0.1".to_string()), ("eth0".to_string(), "10.0.0.5".to_string())]
    );
}

#[test]
fn ips_sem_interface() {
    assert!(parsear_ips("    inet 1.2.3.4/8\n").is_empty());
}

#[test]
fn flags_mtu() {
    let (f, m) = flags_e_mtu(Some("1500\n"), Some("up\n"), Some("1\n"));
    assert_eq!(f, vec!["UP".to_string()]);
    assert_eq!(m, Some(1500));
    let (f, m) = flags_e_mtu(Some("65536\n"), Some("unknown\n"), Some("772\n"));
    assert_eq!(f, vec!["LOOPBACK".to_string()]);
    assert_eq!(m, Some(65536));
    let (f, m) = flags_e_mtu(None, None, None);
    assert!(f.is_empty());
    assert_eq!(m, None);
}

#[test]
fn interfaces_linux_juntas() {
    let nd = parsear_net_dev(NET_DEV);
    let ips = parsear_ips(IP_ADDR);
    let at = vec![(vec!["UP".to_string(), "LOOPBACK".to_string()], Some(65536)), (vec![], None)];
    let r = ler_interfaces_linux(&nd, &ips, &at);
    assert_eq!(r.len(), 2);
    assert_eq!(r[0].nome, "lo");
    assert_eq!(r[0].ip, Some("127.0.0.1".to_string()));
    assert_eq!(r[0].flags, vec!["UP".to_string(), "LOOPBACK".to_string()]);
    assert_eq!(r[0].mtu, Some(65536));
    assert_eq!((r[0].rx_bytes, r[0].tx_bytes, r[0].rx_packets, r[0].tx_packets), (1000, 1000, 10, 10));
    assert_eq!(r[1].ip, Some("10.0.0.5".to_string()));
    assert_eq!(r[1].mascara, None);
}

#[test]
fn interfaces_linux_sem_nome_fora() {
    let nd = vec![(String::new(), (1, 2, 3, 4)), ("x".to_string(), (0, 0, 0, 0))];
    let at = vec![(vec![], None), (vec![], None)];
    let r = ler_interfaces_linux(&nd, &[], &at);
    assert_eq!(r.len(), 1);
    assert_eq!(r[0].nome, "x");
    assert_eq!(r[0].ip, None);
}

#[test]
fn ifconfig_mascara_e_sem_nome() {
    let t = "eth0: flags=4163<UP>  mtu 1500\n        inet 10.1.1.1  netmask 255.255.0.0  broadcast 10.1.255.255\n        ether aa:bb\n: flags=1<X>\n\tinet 1.1.1.1\n";
    let r = parsear_ifconfig(t);
    assert_eq!(r.len(), 1);
    assert_eq!(r[0].mascara, Some("255.255.0.0".to_string()));
    assert_eq!(r[0].flags, vec!["UP".to_string()]);
}

#[test]
fn ifconfig_inet_no_fim_apaga_ip() {
    let t = "e: <A, B ,>\n inet 1.2.3.4\n inet 5.6.7.8 inet\n inet\n";
    let r = parsear_ifconfig(t);
    assert_eq!(r[0].ip, None);
    assert_eq!(r[0].flags, vec!["A".to_string(), "B".to_string(), "".to_string()]);
    assert_eq!(r[0].mtu, None);
}

#[test]
fn ifconfig_mtu_entre_ocorrencias() {
    let r = parsear_ifconfig("e: mtu 1500mtu 9\n");
    assert_eq!(r[0].mtu, Some(1500));
    let r = parsear_ifconfig("e: mtu x\n");
    assert_eq!(r[0].mtu, None);
}

fn iface(nome: &str, ip: Option<&str>, flags: &[&str]) -> InterfaceInfo {
    InterfaceInfo {
        nome: nome.to_string(),
        ip: ip.map(|s| s.to_string()),
        mascara: None,
        flags: flags.iter().map(|s| s.to_string()).collect(),
        mtu: None,
    }
}

#[test]
fn ip_local_pula_loopback() {
    let fs = vec![
        iface("lo", Some("127.0.0.1"), &["UP", "LOOPBACK"]),
        iface("eth0", None, &["UP"]),
        iface("wlan0", Some("192.168.0.16"), &["UP"]),
        iface("wlan1", Some("10.0.0.1"), &["UP"]),
    ];
    assert_eq!(obter_ip_local(&fs), Some("192.168.0.16".to_string()));
    assert_eq!(obter_ip_local(&fs[..2]), None);
}
