use std::collections::HashMap;

use syswatch_tui::cpu::parsear_stat;
use syswatch_tui::rede::parsear_ifconfig;
use syswatch_tui::rede_linux::{parsear_ips, parsear_net_dev};
use syswatch_tui::sistema::{detectar_os, faixa_frequencia, is_termux};

const PEDACOS: &[&str] = &[
    "mtu ", "<", ">", ",", ":", " ", "  ", "\t", "\n", "\r", "\r\n", "inet ", "inet", "inet6 ",
    "netmask", "PRETTY_NAME=", "\"", "a", "é", "\u{a0}", "1500", "/24", "10.0.0.1", "cpu", "cpu0",
    "cpu1 ", "7 ", "x", "com.termux", "lo", "2: ", "eth0:", "UP", "800000 ", "+3 ",
];

struct Gerador(u64);

impl Gerador {
    fn proximo(&mut self) -> u64 {
        self.0 = self.0.wrapping_mul(6364136223846793005).wrapping_add(1442695040888963407);
        self.0 >> 33
    }

    fn texto(&mut self, n: usize) -> String {
        let mut s = String::new();
        for _ in 0..n {
            s.push_str(PEDACOS[(self.proximo() as usize) % PEDACOS.len()]);
        }
        s
    }
}

fn casos() -> Vec<String> {
    let mut g = Gerador(12345);
    let mut v = Vec::new();
    for i in 0..3000 {
        v.push(g.texto(1 + i % 40));
    }
    v
}

#[test]
fn os_e_termux_diferencial() {
    for t in casos() {
        let esperado = t
            .lines()
            .find(|l| l.starts_with("PRETTY_NAME="))
            .map(|l| l.trim_start_matches("PRETTY_NAME=").trim_matches('"').to_string())
            .filter(|n| !n.is_empty())
            .unwrap_or_else(|| "Linux".to_string());
        assert_eq!(detectar_os(false, Some(&t)), esperado, "{:?}", t);
        assert_eq!(is_termux(false, Some(&t), false), t.contains("com.termux"), "{:?}", t);
    }
}

#[test]
fn ifconfig_diferencial() {
    for t in casos() {
        let mut lista: Vec<(String, Option<String>, Option<String>, Vec<String>, Option<u32>)> = Vec::new();
        let mut atual: Option<(String, Option<String>, Option<String>, Vec<String>, Option<u32>)> = None;
        for l in t.lines() {
            let indentada = l.starts_with(' ') || l.starts_with('\t');
            if !indentada && !l.is_empty() {
                if let Some(a) = atual.take() {
                    lista.push(a);
                }
                let nome = l.split(':').next().unwrap().trim().to_string();
                let flags = match l.split('<').nth(1) {
                    Some(f) => f.split('>').next().unwrap().split(',').map(|x| x.trim().to_string()).collect(),
                    None => vec![],
                };
                let mtu = l.split("mtu ").nth(1).and_then(|x| x.split_whitespace().next()).and_then(|x| x.parse().ok());
                atual = Some((nome, None, None, flags, mtu));
            } else if let Some(a) = atual.as_mut() {
                let lt = l.trim();
                if lt.starts_with("inet ") {
                    let p: Vec<&str> = lt.split_whitespace().collect();
                    for (i, w) in p.iter().enumerate() {
                        if *w == "inet" {
                            a.1 = p.get(i + 1).map(|x| x.to_string());
                        }
                        if *w == "netmask" {
                            a.2 = p.get(i + 1).map(|x| x.to_string());
                        }
                    }
                }
            }
        }
        if let Some(a) = atual {
            lista.push(a);
        }
        lista.retain(|a| !a.0.is_empty());
        let r = parsear_ifconfig(&t);
        assert_eq!(r.len(), lista.len(), "{:?}", t);
        for (x, y) in r.iter().zip(lista.iter()) {
            assert_eq!((&x.nome, &x.ip, &x.mascara, &x.flags, &x.mtu), (&y.0, &y.1, &y.2, &y.3, &y.4), "{:?}", t);
        }
    }
}

#[test]
fn ips_e_net_dev_diferencial() {
    for t in casos() {
        let mut ips: HashMap<String, String> = HashMap::new();
        let mut atual: Option<String> = None;
        for l in t.lines() {
            if !l.starts_with(' ') && !l.starts_with('\t') {
                let p: Vec<&str> = l.split_whitespace().collect();
                if p.len() >= 2 {
                    atual = Some(p[1].trim_end_matches(':').to_string());
                }
            } else if let Some(nome) = &atual {
                let lt = l.trim();
                if lt.starts_with("inet ") && !lt.starts_with("inet6") {
                    if let Some(c) = lt.split_whitespace().nth(1) {
                        let ip = c.split('/').next().unwrap().to_string();
                        if !ip.is_empty() {
                            ips.entry(nome.clone()).or_insert(ip);
                        }
                    }
                }
            }
        }
        let r = parsear_ips(&t);
        assert_eq!(r.len(), ips.len(), "{:?}", t);
        for (k, v) in &r {
            assert_eq!(ips.get(k), Some(v), "{:?}", t);
        }

        let mut mapa: HashMap<String, (u64, u64, u64, u64)> = HashMap::new();
        for l in t.lines().skip(2) {
            let l = l.trim();
            if let Some((n, d)) = l.split_once(':') {
                let c: Vec<u64> = d.split_whitespace().map(|x| x.parse().unwrap_or(0)).collect();
                let g = |i: usize| c.get(i).copied().unwrap_or(0);
                mapa.insert(n.trim().to_string(), (g(0), g(8), g(1), g(9)));
            }
        }
        let r = parsear_net_dev(&t);
        assert_eq!(r.len(), mapa.len(), "{:?}", t);
        for (k, v) in &r {
            assert_eq!(mapa.get(k), Some(v), "{:?}", t);
        }
    }
}

#[test]
fn stat_e_faixa_diferencial() {
    for t in casos() {
        let mut cores = 0usize;
        let mut user_global = 0u64;
        for l in t.lines() {
            let p: Vec<&str> = l.split_whitespace().collect();
            if p.is_empty() {
                continue;
            }
            if p[0] == "cpu" {
                user_global = p.get(1).and_then(|x| x.parse().ok()).unwrap_or(0);
            } else if p[0].starts_with("cpu") && p[0].len() > 3 && p[0][3..].parse::<usize>().is_ok() {
                cores += 1;
            }
        }
        let (g, c) = parsear_stat(&t);
        assert_eq!((g.user, c.len()), (user_global, cores), "{:?}", t);

        let f: Vec<u64> = t.split_whitespace().filter_map(|x| x.parse::<u64>().ok()).map(|x| x / 1000).collect();
        if !f.is_empty() {
            let esperado = format!("{} - {} MHz ({} níveis)", f.iter().min().unwrap(), f.iter().max().unwrap(), f.len());
            assert_eq!(faixa_frequencia(&t, None, None), esperado, "{:?}", t);
        }
    }
}
