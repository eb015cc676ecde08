use syswatch_tui::cpu::{core_online, khz_de, parse_stat_linha};
use syswatch_tui::memoria::parsear_meminfo;
use syswatch_tui::painel::{juntar, primeiros_chars};
use syswatch_tui::processos::{paginas_statm, pid_de, tempos_proc};
use syswatch_tui::sistema::{aparar_texto, temperatura_mili};

fn amostras() -> Vec<String> {
    let base = [
        "", " ", "0", "+", "-", "+0", "-0", "+-1", "00012", "  42  ", "\t7\n", "1 2", "12a",
        "18446744073709551615", "18446744073709551616", "4294967295", "4294967296", "255", "256",
        "-9223372036854775808", "-9223372036854775809", "9223372036854775807", "+9223372036854775807",
        "\u{a0}5\u{2003}", "\u{200b}5", "\u{feff}9", "\u{85}3\u{1680}", "\u{3000}1\u{2028}", "\x0b8\x0c",
        "\r\n", "a\r\nb\r\n", "x\ry", "ção", "١٢", "1\u{202f}", "1\u{205f}",
    ];
    let mut v: Vec<String> = base.iter().map(|s| s.to_string()).collect();
    for a in base.iter() {
        for b in ["", " ", "\n", "\u{a0}"] {
            v.push(format!("{}{}{}", b, a, b));
        }
    }
    v
}

#[test]
fn aparar_como_trim() {
    for s in amostras() {
        assert_eq!(aparar_texto(&s), s.trim(), "{:?}", s);
    }
}

#[test]
fn numeros_como_parse() {
    for s in amostras() {
        assert_eq!(pid_de(&s), s.parse::<u32>().ok(), "{:?}", s);
        assert_eq!(temperatura_mili(&s), s.trim().parse::<i64>().ok(), "{:?}", s);
        assert_eq!(khz_de(Some(&s)), s.trim().parse::<u64>().unwrap_or(0), "{:?}", s);
        assert_eq!(core_online(Some(&s)), s.trim().parse::<u8>().map(|v| v == 1).unwrap_or(true), "{:?}", s);
    }
}

#[test]
fn palavras_como_split_whitespace() {
    for a in amostras() {
        for b in amostras().iter().take(12) {
            let s = format!("{} {}\u{2009}{}", a, b, a);
            let w: Vec<&str> = s.split_whitespace().collect();
            let esperado = w.get(1).and_then(|x| x.parse::<u64>().ok()).unwrap_or(0);
            assert_eq!(paginas_statm(&s), esperado, "{:?}", s);
            let linha = parse_stat_linha(&w);
            let n = |i: usize| -> u64 { w.get(i).and_then(|x| x.parse().ok()).unwrap_or(0) };
            assert_eq!((linha.user, linha.nice, linha.system), (n(1), n(2), n(3)), "{:?}", s);
        }
    }
}

#[test]
fn tempos_como_campos() {
    let mut s = String::new();
    for i in 0..16 {
        s.push_str(&format!("{}\u{a0} ", i * 3));
        let w: Vec<&str> = s.split_whitespace().collect();
        let esperado = match (w.get(13).and_then(|x| x.parse::<u64>().ok()), w.get(14).and_then(|x| x.parse::<u64>().ok())) {
            (Some(u), Some(t)) => Some((u, t)),
            _ => None,
        };
        assert_eq!(tempos_proc(&s), esperado);
    }
}

#[test]
fn linhas_como_lines() {
    for a in amostras().iter().take(40) {
        let texto = format!("MemTotal: {}\r\nMemFree:{}\n\nSwapTotal: 7\r", a, a);
        let mut total = 0u64;
        let mut livre = 0u64;
        let mut swap = 0u64;
        for l in texto.lines() {
            let p: Vec<&str> = l.split_whitespace().collect();
            if p.len() < 2 {
                continue;
            }
            let v: u64 = p[1].parse().unwrap_or(0);
            match p[0] {
                "MemTotal:" => total = v,
                "MemFree:" => livre = v,
                "SwapTotal:" => swap = v,
                _ => {}
            }
        }
        let m = parsear_meminfo(&texto);
        assert_eq!((m.total_kb, m.livre_kb, m.swap_total_kb), (total, livre, swap), "{:?}", texto);
    }
}

#[test]
fn juntar_e_prefixo() {
    for a in amostras().iter().take(30) {
        let v = vec![a.clone(), "x".to_string(), a.clone()];
        assert_eq!(juntar(&v, ", "), v.join(", "));
        for n in 0..4 {
            assert_eq!(primeiros_chars(a, n), a.chars().take(n).collect::<String>());
        }
    }
}
