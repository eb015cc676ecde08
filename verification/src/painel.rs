use vstd::prelude::*;
use crate::collector::{formatar_bytes, texto_bytes};
pub use crate::rede::tem_flag;
use crate::texto::{chars_de, decimal, escrever_decimal, opt_vista, string_de, vistas_string};

verus! {

/// Quantos painéis há: CPU, Memória, Processos, Rede e Sistema.
pub const NUM_ABAS: usize = 5;

/// Quantas leituras de CPU o histórico guarda (60 s).
pub const MAX_HISTORICO: usize = 60;

/// Uma tecla lida do terminal.
#[derive(Clone, Copy, Debug, PartialEq, Eq)]
pub enum Tecla {
    /// Um caractere; `so_control` diz se o único modificador era Ctrl.
    Caractere(char, bool),
    Tab,
    BackTab,
    Direita,
    Esquerda,
    Outra,
}

/// O que fazer depois de uma tecla.
#[derive(Clone, Copy, Debug, PartialEq, Eq)]
pub enum Acao {
    Sair,
    /// Mostrar o painel de índice dado.
    Aba(usize),
}

/// The effect of a key on the panel `aba`: `q` or Ctrl+C quit; Tab and → go to the
/// next panel (after the last, the first); BackTab and ← go to the previous one (none
/// before the first); `1`..`5` pick a panel; any other key changes nothing.
pub open spec fn efeito(aba: usize, tecla: Tecla) -> Acao {
    match tecla {
        Tecla::Caractere(c, so_control) => {
            if c == 'q' || (c == 'c' && so_control) {
                Acao::Sair
            } else if '1' <= c && c <= '5' {
                Acao::Aba(((c as u32) - ('1' as u32)) as usize)
            } else {
                Acao::Aba(aba)
            }
        },
        Tecla::Tab | Tecla::Direita => Acao::Aba(((aba + 1) % (NUM_ABAS as int)) as usize),
        Tecla::BackTab | Tecla::Esquerda => Acao::Aba(if aba > 0 { (aba - 1) as usize } else { 0 }),
        Tecla::Outra => Acao::Aba(aba),
    }
}

/// Navegação por teclado entre os painéis.
pub fn tratar_tecla(aba: usize, tecla: Tecla) -> (r: Acao)
    requires
        aba < NUM_ABAS,
    ensures
        r == efeito(aba, tecla),
{
    match tecla {
        Tecla::Caractere(c, so_control) => {
            if c == 'q' || (c == 'c' && so_control) {
                Acao::Sair
            } else if '1' <= c && c <= '5' {
                Acao::Aba(((c as u32) - ('1' as u32)) as usize)
            } else {
                Acao::Aba(aba)
            }
        },
        Tecla::Tab | Tecla::Direita => Acao::Aba((aba + 1) % NUM_ABAS),
        Tecla::BackTab | Tecla::Esquerda => Acao::Aba(aba.saturating_sub(1)),
        Tecla::Outra => Acao::Aba(aba),
    }
}

/// Whatever key comes, the panel shown stays a valid one.
pub proof fn lei_aba_valida(aba: usize, tecla: Tecla)
    requires
        aba < NUM_ABAS,
    ensures
        efeito(aba, tecla) matches Acao::Aba(n) ==> n < NUM_ABAS,
{
}

/// Tab and → move the same way, as do BackTab and ←; ← steps back one panel and →
/// comes back to where it started, → steps forward one and ← comes back (except from
/// the last panel, where → wraps to the first); ← on the first panel stays there.
pub proof fn lei_navegacao(aba: usize)
    requires
        aba < NUM_ABAS,
    ensures
        efeito(aba, Tecla::Esquerda) == efeito(aba, Tecla::BackTab),
        efeito(aba, Tecla::Direita) == efeito(aba, Tecla::Tab),
        aba > 0 ==> (efeito(aba, Tecla::Esquerda) matches Acao::Aba(n) && n + 1 == aba
            && efeito(n, Tecla::Direita) == Acao::Aba(aba)),
        aba + 1 < NUM_ABAS ==> (efeito(aba, Tecla::Direita) matches Acao::Aba(n) && n == aba + 1
            && efeito(n, Tecla::Esquerda) == Acao::Aba(aba)),
        aba + 1 == NUM_ABAS ==> efeito(aba, Tecla::Direita) == Acao::Aba(0),
        aba == 0 ==> efeito(aba, Tecla::Esquerda) == Acao::Aba(0),
{
}

/// `q` quits with or without Ctrl, and so does Ctrl+C; a plain `c`, any other letter
/// and any other key leave the panel as it is.
pub proof fn lei_sair_e_outras(aba: usize, ctrl: bool)
    ensures
        efeito(aba, Tecla::Caractere('q', ctrl)) == Acao::Sair,
        efeito(aba, Tecla::Caractere('c', true)) == Acao::Sair,
        efeito(aba, Tecla::Caractere('c', false)) == Acao::Aba(aba),
        efeito(aba, Tecla::Caractere('x', ctrl)) == Acao::Aba(aba),
        efeito(aba, Tecla::Caractere('0', ctrl)) == Acao::Aba(aba),
        efeito(aba, Tecla::Caractere('6', ctrl)) == Acao::Aba(aba),
        efeito(aba, Tecla::Outra) == Acao::Aba(aba),
{
}

/// The digit keys `1` to `5` show panels 0 to 4 from any panel.
pub proof fn lei_teclas_numericas(aba: usize, n: usize)
    requires
        n < NUM_ABAS,
    ensures
        efeito(aba, Tecla::Caractere(((n + 49) as char), false)) == Acao::Aba(n),
        efeito(aba, Tecla::Caractere(((n + 49) as char), true)) == Acao::Aba(n),
{
}

/// The history after adding a reading: pushed at the end, the oldest dropped when
/// there would be more than `MAX_HISTORICO`.
pub open spec fn historico_apos<T>(h: Seq<T>, v: T) -> Seq<T> {
    if h.len() + 1 > MAX_HISTORICO {
        h.push(v).drop_first()
    } else {
        h.push(v)
    }
}

/// Acrescenta uma leitura ao histórico, descartando a mais antiga além de 60.
pub fn empurrar_historico<T>(h: &mut Vec<T>, v: T)
    ensures
        final(h)@ == historico_apos(old(h)@, v),
{
    h.push(v);
    if h.len() > MAX_HISTORICO {
        h.remove(0);
        assert(final(h)@ =~= old(h)@.push(v).drop_first());
    }
}

/// A history of at most 60 readings stays so, and its last reading is the new one.
pub proof fn lei_historico_limitado<T>(h: Seq<T>, v: T)
    requires
        h.len() <= MAX_HISTORICO,
    ensures
        historico_apos(h, v).len() <= MAX_HISTORICO,
        historico_apos(h, v).last() == v,
{
}

/// Adding a reading keeps the newest readings in order: the result is the old history
/// with the reading appended, less exactly one oldest reading when it held
/// `MAX_HISTORICO` or more and none otherwise; so a history of at most 60 readings
/// holds `min(old + 1, 60)` after.
pub proof fn lei_historico_janela<T>(h: Seq<T>, v: T)
    ensures
        ({
            let r = historico_apos(h, v);
            let tirados: int = if h.len() >= MAX_HISTORICO { 1 } else { 0 };
            &&& r.len() == h.len() + 1 - tirados
            &&& r.len() > 0
            &&& r[r.len() - 1] == v
            &&& forall|i: int| 0 <= i < h.len() - tirados ==> #[trigger] r[i] == h[i + tirados]
            &&& h.len() <= MAX_HISTORICO ==> r.len() == if h.len() < MAX_HISTORICO {
                h.len() + 1 as int
            } else {
                MAX_HISTORICO as int
            }
        }),
{
}

/// `(parte * 100 / total) as u16` for a gauge, 0 without total.
pub open spec fn pct(parte: u64, total: u64) -> u16 {
    if total > 0 {
        (((parte as int) * 100 / (total as int)) % 0x1_0000) as u16
    } else {
        0
    }
}

/// A porcentagem inteira de `parte` em `total` para um gauge; `None` quando
/// `parte * 100` não cabe em um `u64`.
pub fn pct_inteiro(parte: u64, total: u64) -> (r: Option<u16>)
    ensures
        (r is Some) == (total == 0 || parte * 100 <= u64::MAX),
        r matches Some(p) ==> p == pct(parte, total),
{
    if total > 0 {
        match parte.checked_mul(100) {
            Some(x) => {
                let q = x / total;
                Some((q % 0x1_0000) as u16)
            },
            None => None,
        }
    } else {
        Some(0)
    }
}

/// A cor de um nível de uso.
#[derive(Clone, Copy, Debug, PartialEq, Eq)]
pub enum Cor {
    Verde,
    Amarelo,
    Vermelho,
}

impl Cor {
    /// A cor em RGB.
    pub fn rgb(&self) -> (r: (u8, u8, u8))
        ensures
            r == match *self {
                Cor::Vermelho => (220u8, 50u8, 50u8),
                Cor::Amarelo => (220u8, 180u8, 0u8),
                Cor::Verde => (0u8, 200u8, 80u8),
            },
    {
        match self {
            Cor::Vermelho => (220, 50, 50),
            Cor::Amarelo => (220, 180, 0),
            Cor::Verde => (0, 200, 80),
        }
    }
}

/// Vermelho a partir de 80%, amarelo a partir de 50%, verde abaixo.
pub fn cor_por_pct(pct: u16) -> (c: Cor)
    ensures
        c == if pct >= 80 {
            Cor::Vermelho
        } else if pct >= 50 {
            Cor::Amarelo
        } else {
            Cor::Verde
        },
{
    if pct >= 80 {
        Cor::Vermelho
    } else if pct >= 50 {
        Cor::Amarelo
    } else {
        Cor::Verde
    }
}

/// O rótulo do gauge de SWAP: `"sem swap"` sem SWAP, senão `"{pct}%"`.
pub fn rotulo_swap(swap_total: u64, pct: u16) -> (r: String)
    ensures
        r@ == if swap_total == 0 {
            "sem swap"@
        } else {
            decimal(pct as nat) + "%"@
        },
{
    if swap_total == 0 {
        String::from_str("sem swap")
    } else {
        let mut r = String::new();
        escrever_decimal(&mut r, pct as u64);
        r.append("%");
        r
    }
}

/// O total de SWAP para exibição: `"sem swap"` sem SWAP, senão o tamanho formatado.
pub fn texto_swap_total(swap_total: u64) -> (r: String)
    ensures
        r@ == if swap_total == 0 {
            "sem swap"@
        } else {
            texto_bytes(swap_total as nat)
        },
{
    if swap_total == 0 {
        String::from_str("sem swap")
    } else {
        formatar_bytes(swap_total)
    }
}

/// Um contador de bytes na tabela de rede: `"-"` quando zero, senão formatado.
pub fn bytes_ou_traco(b: u64) -> (r: String)
    ensures
        r@ == if b > 0 {
            texto_bytes(b as nat)
        } else {
            "-"@
        },
{
    if b > 0 {
        formatar_bytes(b)
    } else {
        String::from_str("-")
    }
}

/// Um texto opcional na tabela: o texto, ou `"-"`.
pub fn texto_ou_traco(t: &Option<String>) -> (r: String)
    ensures
        r@ == match opt_vista(*t) {
            Some(s) => s,
            None => "-"@,
        },
{
    match t {
        Some(s) => s.clone(),
        None => String::from_str("-"),
    }
}

/// O MTU na tabela: o número, ou `"-"`.
pub fn mtu_ou_traco(m: Option<u32>) -> (r: String)
    ensures
        r@ == match m {
            Some(v) => decimal(v as nat),
            None => "-"@,
        },
{
    match m {
        Some(v) => {
            let mut r = String::new();
            escrever_decimal(&mut r, v as u64);
            r
        },
        None => String::from_str("-"),
    }
}

/// `[a, b, c].join(sep)`.
pub open spec fn juncao(v: Seq<Seq<char>>, sep: Seq<char>) -> Seq<char>
    decreases v.len(),
{
    if v.len() == 0 {
        Seq::empty()
    } else if v.len() == 1 {
        v[0]
    } else {
        juncao(v.drop_last(), sep) + sep + v.last()
    }
}

/// As flags separadas por `sep`.
pub fn juntar(v: &Vec<String>, sep: &str) -> (r: String)
    ensures
        r@ == juncao(vistas_string(v@), sep@),
{
    let ghost vv = vistas_string(v@);
    let mut r = String::new();
    let mut i: usize = 0;
    assert(vv.take(0) =~= Seq::<Seq<char>>::empty());
    while i < v.len()
        invariant
            i <= v@.len(),
            vv == vistas_string(v@),
            r@ == juncao(vv.take(i as int), sep@),
        decreases v@.len() - i,
    {
        assert(vv.take(i + 1).drop_last() =~= vv.take(i as int));
        assert(vv.take(i + 1).last() == v@[i as int]@);
        if i > 0 {
            r.append(sep);
        } else {
            assert(vv.take(1)[0] == v@[0]@);
            assert(r@ =~= Seq::<char>::empty());
        }
        r.append(v[i].as_str());
        i = i + 1;
    }
    assert(vv.take(v@.len() as int) =~= vv);
    r
}

/// Os primeiros `n` caracteres de um nome (todos, se tiver menos).
pub fn primeiros_chars(s: &str, n: usize) -> (r: String)
    ensures
        r@ == s@.take(if n < s@.len() { n as int } else { s@.len() as int }),
{
    let cs = chars_de(s);
    let k = if n < cs.len() {
        n
    } else {
        cs.len()
    };
    let p = crate::texto::copiar_ate(cs.as_slice(), k);
    string_de(p.as_slice())
}

/// A frequência para exibição: `"{mhz} MHz"`.
pub fn texto_mhz(mhz: u64) -> (r: String)
    ensures
        r@ == decimal(mhz as nat) + " MHz"@,
{
    let mut r = String::new();
    escrever_decimal(&mut r, mhz);
    r.append(" MHz");
    r
}

/// The height of the per-core bar chart in a CPU panel of height `altura`: half of it,
/// at least 12, but leaving 8 rows for the history (as `max` then `min`).
pub open spec fn altura_barras_spec(altura: u16) -> u16 {
    let metade = altura / 2;
    let pelo_menos = if metade >= 12 { metade } else { 12 };
    let limite: u16 = if altura >= 8 { (altura - 8) as u16 } else { 0 };
    if pelo_menos <= limite { pelo_menos } else { limite }
}

/// A altura do gráfico de barras por core.
pub fn altura_barras(altura: u16) -> (r: u16)
    ensures
        r == altura_barras_spec(altura),
{
    (altura / 2).max(12).min(altura.saturating_sub(8))
}

/// The width of each core's bar: the inner width (less 4 for the borders) shared
/// among the cores (at least one, counted as a `u16`), less 1 for the gap, between 3
/// and 8.
pub open spec fn largura_barra_spec(largura: u16, n_cores: usize) -> u16 {
    let disponivel: int = if largura >= 4 { largura - 4 } else { 0 };
    let n: int = (if n_cores >= 1 { n_cores as int } else { 1 }) % 0x1_0000;
    let por_core = disponivel / n;
    let w = if por_core >= 1 { por_core - 1 } else { 0 };
    (if w < 3 { 3 } else if w > 8 { 8 } else { w }) as u16
}

/// A largura de cada barra; `n_cores` não pode ser um múltiplo não nulo de 65536
/// (como `u16` ele seria zero).
pub fn largura_barra(largura: u16, n_cores: usize) -> (r: u16)
    requires
        (if n_cores >= 1 { n_cores as int } else { 1 }) % 0x1_0000 != 0,
    ensures
        r == largura_barra_spec(largura, n_cores),
{
    let disponivel = largura.saturating_sub(4);
    let n = n_cores.max(1);
    let n16 = (n % 0x1_0000) as u16;
    let por_core = disponivel / n16;
    por_core.saturating_sub(1).max(3).min(8)
}

} // verus!
