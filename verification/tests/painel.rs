use syswatch_tui::painel::{
    bytes_ou_traco, cor_por_pct, empurrar_historico, juntar, mtu_ou_traco, pct_inteiro,
    primeiros_chars, rotulo_swap, tem_flag, texto_mhz, texto_ou_traco, texto_swap_total,
    tratar_tecla, altura_barras, largura_barra, Acao, Cor, Tecla, MAX_HISTORICO, NUM_ABAS,
};
use syswatch_tui::collector::texto_nucleos;

#[test]
fn navegacao() {
    assert_eq!(tratar_tecla(0, Tecla::Caractere('q', false)), Acao::Sair);
    assert_eq!(tratar_tecla(2, Tecla::Caractere('c', true)), Acao::Sair);
    assert_eq!(tratar_tecla(2, Tecla::Caractere('c', false)), Acao::Aba(2));
    assert_eq!(tratar_tecla(0, Tecla::Tab), Acao::Aba(1));
    assert_eq!(tratar_tecla(NUM_ABAS - 1, Tecla::Direita), Acao::Aba(0));
    assert_eq!(tratar_tecla(0, Tecla::Esquerda), Acao::Aba(0));
    assert_eq!(tratar_tecla(3, Tecla::BackTab), Acao::Aba(2));
    assert_eq!(tratar_tecla(0, Tecla::Caractere('5', false)), Acao::Aba(4));
    assert_eq!(tratar_tecla(4, Tecla::Caractere('1', true)), Acao::Aba(0));
    assert_eq!(tratar_tecla(1, Tecla::Caractere('6', false)), Acao::Aba(1));
    assert_eq!(tratar_tecla(1, Tecla::Outra), Acao::Aba(1));
}

#[test]
fn aba_sempre_valida() {
    let teclas = [Tecla::Tab, Tecla::BackTab, Tecla::Direita, Tecla::Esquerda, Tecla::Outra, Tecla::Caractere('3', false)];
    for aba in 0..NUM_ABAS {
        for t in teclas {
            if let Acao::Aba(n) = tratar_tecla(aba, t) {
                assert!(n < NUM_ABAS);
            }
        }
    }
}

#[test]
fn historico_limitado() {
    let mut h: Vec<u32> = Vec::new();
    for i in 0..100 {
        empurrar_historico(&mut h, i);
        assert!(h.len() <= MAX_HISTORICO);
        assert_eq!(*h.last().unwrap(), i);
    }
    assert_eq!(h.len(), 60);
    assert_eq!(h[0], 40);
}

#[test]
fn porcentagem_inteira() {
    assert_eq!(pct_inteiro(50, 200), Some(25));
    assert_eq!(pct_inteiro(7, 0), Some(0));
    assert_eq!(pct_inteiro(u64::MAX, 1), None);
    assert_eq!(pct_inteiro(1000, 1), Some((100000u64 % 65536) as u16));
}

#[test]
fn cores() {
    assert_eq!(cor_por_pct(80), Cor::Vermelho);
    assert_eq!(cor_por_pct(79), Cor::Amarelo);
    assert_eq!(cor_por_pct(50), Cor::Amarelo);
    assert_eq!(cor_por_pct(49), Cor::Verde);
    assert_eq!(Cor::Vermelho.rgb(), (220, 50, 50));
    assert_eq!(Cor::Amarelo.rgb(), (220, 180, 0));
    assert_eq!(Cor::Verde.rgb(), (0, 200, 80));
}

#[test]
fn rotulos() {
    assert_eq!(rotulo_swap(0, 0), "sem swap");
    assert_eq!(rotulo_swap(10, 42), "42%");
    assert_eq!(texto_swap_total(0), "sem swap");
    assert_eq!(texto_swap_total(2048), "2.0 KB");
    assert_eq!(bytes_ou_traco(0), "-");
    assert_eq!(bytes_ou_traco(1536), "1.5 KB");
    assert_eq!(texto_ou_traco(&None), "-");
    assert_eq!(texto_ou_traco(&Some("1.2.3.4".to_string())), "1.2.3.4");
    assert_eq!(mtu_ou_traco(Some(1500)), "1500");
    assert_eq!(mtu_ou_traco(None), "-");
    assert_eq!(texto_mhz(3900), "3900 MHz");
    assert_eq!(texto_nucleos(4), "4 cores");
}

#[test]
fn flags() {
    let f = vec!["UP".to_string(), "LOOPBACK".to_string()];
    assert_eq!(juntar(&f, ", "), "UP, LOOPBACK");
    assert_eq!(juntar(&vec![], ", "), "");
    assert!(tem_flag(&f, "UP"));
    assert!(!tem_flag(&f, "RUNNING"));
}

#[test]
fn nome_curto() {
    assert_eq!(primeiros_chars("abc", 20), "abc");
    assert_eq!(primeiros_chars("çãoçãoçãoçãoçãoçãoçãoçã", 20), "çãoçãoçãoçãoçãoçãoçã");
}

#[test]
fn dimensoes_do_grafico() {
    for h in [0u16, 5, 8, 20, 24, 30, 100, u16::MAX] {
        assert_eq!(altura_barras(h), (h / 2).max(12).min(h.saturating_sub(8)));
    }
    for w in [0u16, 4, 10, 40, 80, 200, u16::MAX] {
        for n in [0usize, 1, 2, 4, 16, 1000, 65537] {
            let esperado = (w.saturating_sub(4) / (n.max(1) as u16)).saturating_sub(1).clamp(3, 8);
            assert_eq!(largura_barra(w, n), esperado);
        }
    }
}
