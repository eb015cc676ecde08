use vstd::prelude::*;
use crate::memoria::{MemAndroid, sub_sat};
use crate::rede::InterfaceInfo;
use crate::rede_linux::InterfaceLinux;
use crate::sistema::{detectar_os, is_termux, nome_os, termux};
use crate::texto::{decimal, digito, digito_exec, escrever_decimal, opt_vista, opt_vista_str, vistas_string};
use vstd::arithmetic::div_mod::{lemma_div_denominator, lemma_fundamental_div_mod_converse};

verus! {

/// The text `formatar_uptime` gives for `secs` seconds.
pub open spec fn texto_uptime(secs: nat) -> Seq<char> {
    let dias = secs / 86400;
    let horas = (secs % 86400) / 3600;
    let minutos = (secs % 3600) / 60;
    let segundos = secs % 60;
    let resto = decimal(horas) + "h "@ + decimal(minutos) + "m "@ + decimal(segundos) + "s"@;
    if dias > 0 {
        decimal(dias) + "d "@ + resto
    } else {
        resto
    }
}

/// Uptime as `"{d}d {h}h {m}m {s}s"`, without the day part when there are no whole days.
pub fn formatar_uptime(secs: u64) -> (r: String)
    ensures
        r@ == texto_uptime(secs as nat),
{
    let dias = secs / 86400;
    let horas = (secs % 86400) / 3600;
    let minutos = (secs % 3600) / 60;
    let segundos = secs % 60;
    let mut r = String::new();
    if dias > 0 {
        escrever_decimal(&mut r, dias);
        r.append("d ");
    }
    escrever_decimal(&mut r, horas);
    r.append("h ");
    escrever_decimal(&mut r, minutos);
    r.append("m ");
    escrever_decimal(&mut r, segundos);
    r.append("s");
    r
}

/// The parts of an uptime recompose the seconds, each below its unit.
pub proof fn lei_uptime_recompoe(secs: nat)
    ensures
        (secs / 86400) * 86400 + ((secs % 86400) / 3600) * 3600 + ((secs % 3600) / 60) * 60
            + secs % 60 == secs,
        (secs % 86400) / 3600 < 24,
        (secs % 3600) / 60 < 60,
        secs % 60 < 60,
{
    assert((secs / 86400) * 86400 + ((secs % 86400) / 3600) * 3600 + ((secs % 3600) / 60) * 60
        + secs % 60 == secs) by (nonlinear_arith);
    assert((secs % 86400) / 3600 < 24) by (nonlinear_arith);
    assert((secs % 3600) / 60 < 60) by (nonlinear_arith);
}

/// The uptime text reads back to the seconds: for any days `d`, hours `h < 24`,
/// minutes `m < 60` and seconds `s < 60` that make up `secs`, the text is `"{d}d "`
/// (left out when `d` is 0), then `"{h}h {m}m {s}s"`.
pub proof fn lei_uptime_le_de_volta(secs: nat, d: nat, h: nat, m: nat, s: nat)
    requires
        h < 24,
        m < 60,
        s < 60,
        d * 86400 + h * 3600 + m * 60 + s == secs,
    ensures
        texto_uptime(secs) == (if d > 0 { decimal(d) + "d "@ } else { Seq::<char>::empty() })
            + decimal(h) + "h "@ + decimal(m) + "m "@ + decimal(s) + "s"@,
{
    let resto = h * 3600 + m * 60 + s;
    assert(resto < 86400) by (nonlinear_arith)
        requires h < 24, m < 60, s < 60, resto == h * 3600 + m * 60 + s;
    assert(secs == d * 86400 + resto);
    lemma_fundamental_div_mod_converse(secs as int, 86400, d as int, resto as int);
    let ms = m * 60 + s;
    assert(ms < 3600) by (nonlinear_arith)
        requires m < 60, s < 60, ms == m * 60 + s;
    lemma_fundamental_div_mod_converse(resto as int, 3600, h as int, ms as int);
    assert(secs == (d * 24 + h) * 3600 + ms) by (nonlinear_arith)
        requires secs == d * 86400 + h * 3600 + ms;
    lemma_fundamental_div_mod_converse(secs as int, 3600, (d * 24 + h) as int, ms as int);
    lemma_fundamental_div_mod_converse(ms as int, 60, m as int, s as int);
    assert(secs == (d * 1440 + h * 60 + m) * 60 + s) by (nonlinear_arith)
        requires secs == d * 86400 + h * 3600 + m * 60 + s;
    lemma_fundamental_div_mod_converse(secs as int, 60, (d * 1440 + h * 60 + m) as int, s as int);
    if d == 0 {
        assert(Seq::<char>::empty() + decimal(h) =~= decimal(h));
    }
}

pub open spec fn dois_a(e: nat) -> nat
    decreases e,
{
    if e == 0 {
        1
    } else {
        2 * dois_a((e - 1) as nat)
    }
}

/// How many low bits of `b` an `f64` cannot hold (it keeps 53 significant bits).
pub open spec fn expoente_f64(b: nat) -> nat
    decreases b,
{
    if b < 0x20_0000_0000_0000 {
        0
    } else {
        1 + expoente_f64(b / 2)
    }
}

/// `b as f64`: `b` rounded to 53 significant bits, to nearest, ties to even.
pub open spec fn para_f64(b: nat) -> nat {
    let s = expoente_f64(b);
    if s == 0 {
        b
    } else {
        let p = dois_a(s);
        let q = b / p;
        let r = b % p;
        if r > p / 2 || (r == p / 2 && q % 2 == 1) {
            (q + 1) * p
        } else {
            q * p
        }
    }
}

/// `x / u` in tenths, rounded to nearest, ties to even (as `{:.1}` rounds).
pub open spec fn decimos(x: nat, u: nat) -> nat {
    let t = (x * 10) / u;
    let r = (x * 10) % u;
    if 2 * r > u || (2 * r == u && t % 2 == 1) {
        t + 1
    } else {
        t
    }
}

/// The tenths shown are the nearest to `x / u`: off by at most half a tenth.
pub proof fn lei_decimos_mais_proximos(x: nat, u: nat)
    requires
        u > 0,
    ensures
        10 * x * 2 <= decimos(x, u) * u * 2 + u,
        decimos(x, u) * u * 2 <= 10 * x * 2 + u,
{
    let t = (x * 10) / u;
    let r = (x * 10) % u;
    vstd::arithmetic::div_mod::lemma_fundamental_div_mod((x * 10) as int, u as int);
    assert(x * 10 == u * t + r);
    assert(0 <= r < u);
    if 2 * r > u || (2 * r == u && t % 2 == 1) {
        assert((t + 1) * u == t * u + u) by (nonlinear_arith);
        assert(u * t == t * u) by (nonlinear_arith);
    } else {
        assert(u * t == t * u) by (nonlinear_arith);
    }
}

/// A count of tenths written with one decimal place.
pub open spec fn uma_casa(d: nat) -> Seq<char> {
    decimal(d / 10) + "."@ + seq![digito(d % 10)]
}

pub const KB: u64 = 1024;

pub const MB: u64 = 1048576;

pub const GB: u64 = 1073741824;

/// The text `formatar_bytes` gives for `b` bytes.
pub open spec fn texto_bytes(b: nat) -> Seq<char> {
    if b >= GB {
        uma_casa(decimos(para_f64(b), GB as nat)) + " GB"@
    } else if b >= MB {
        uma_casa(decimos(para_f64(b), MB as nat)) + " MB"@
    } else if b >= KB {
        uma_casa(decimos(para_f64(b), KB as nat)) + " KB"@
    } else {
        decimal(b) + " B"@
    }
}

fn para_f64_exec(b: u64) -> (r: u128)
    ensures
        r == para_f64(b as nat),
        r <= 2 * (b as nat),
{
    let bb = b as u128;
    let mut q: u128 = bb;
    let mut p: u128 = 1;
    let ghost mut s: nat = 0;
    while q >= 0x20_0000_0000_0000
        invariant
            p == dois_a(s),
            p > 0,
            q == (b as nat) / (p as nat),
            expoente_f64(b as nat) == s + expoente_f64(q as nat),
            p <= b || p == 1,
        decreases q,
    {
        proof {
            lemma_div_denominator(b as int, p as int, 2);
            vstd::arithmetic::div_mod::lemma_fundamental_div_mod(b as int, p as int);
            assert(p * q >= 2 * p) by (nonlinear_arith)
                requires
                    q >= 2,
                    p > 0,
            ;
        }
        q = q / 2;
        p = p * 2;
        proof {
            s = s + 1;
        }
    }
    if p == 1 {
        return bb;
    }
    let r = bb % p;
    proof {
        vstd::arithmetic::div_mod::lemma_fundamental_div_mod(b as int, p as int);
        assert(p * q <= b);
        assert((q + 1) * p == q * p + p) by (nonlinear_arith);
        assert(q * p == p * q) by (nonlinear_arith);
    }
    if r > p / 2 || (r == p / 2 && q % 2 == 1) {
        (q + 1) * p
    } else {
        q * p
    }
}

/// Appends `x / u` with one decimal place.
fn escrever_uma_casa(out: &mut String, x: u128, u: u128)
    requires
        x <= 2 * (u64::MAX as nat),
        1024 <= u <= GB,
    ensures
        final(out)@ == old(out)@ + uma_casa(decimos(x as nat, u as nat)),
{
    let t = (x * 10) / u;
    let r = (x * 10) % u;
    assert(r < u);
    assert(t <= x * 10 / 1024) by {
        vstd::arithmetic::div_mod::lemma_div_is_ordered_by_denominator((x * 10) as int, 1024, u as int);
    }
    let d = if 2 * r > u || (2 * r == u && t % 2 == 1) {
        t + 1
    } else {
        t
    };
    escrever_decimal(out, (d / 10) as u64);
    out.append(".");
    out.push(digito_exec((d % 10) as u64));
}

/// A size in bytes for display: GB, MB or KB with one decimal place, or plain bytes.
pub fn formatar_bytes(bytes: u64) -> (r: String)
    ensures
        r@ == texto_bytes(bytes as nat),
{
    let mut r = String::new();
    if bytes >= GB {
        escrever_uma_casa(&mut r, para_f64_exec(bytes), GB as u128);
        r.append(" GB");
    } else if bytes >= MB {
        escrever_uma_casa(&mut r, para_f64_exec(bytes), MB as u128);
        r.append(" MB");
    } else if bytes >= KB {
        escrever_uma_casa(&mut r, para_f64_exec(bytes), KB as u128);
        r.append(" KB");
    } else {
        escrever_decimal(&mut r, bytes);
        r.append(" B");
    }
    r
}

} // verus!

verus! {

/// Memória em bytes.
#[derive(Clone, Debug)]
pub struct MemoryMetrics {
    pub total: u64,
    pub usado: u64,
    pub livre: u64,
    pub swap_total: u64,
    pub swap_usado: u64,
}

impl MemoryMetrics {
    /// Os contadores em kB de `/proc/meminfo` em bytes (×1024): total, usado (total
    /// menos disponível), livre (= disponível), SWAP total e usada; `None` quando algum
    /// não cabe em um `u64`.
    pub fn de_mem(m: &MemAndroid) -> (r: Option<MemoryMetrics>)
        ensures
            ({
                let usado = sub_sat(m.total_kb, m.disponivel_kb);
                let swap_usado = sub_sat(m.swap_total_kb, m.swap_livre_kb);
                let cabe = m.total_kb * 1024 <= u64::MAX && usado * 1024 <= u64::MAX
                    && m.disponivel_kb * 1024 <= u64::MAX && m.swap_total_kb * 1024 <= u64::MAX
                    && swap_usado * 1024 <= u64::MAX;
                &&& (r is Some) == cabe
                &&& cabe ==> r == Some(MemoryMetrics {
                    total: (m.total_kb * 1024) as u64,
                    usado: (usado * 1024) as u64,
                    livre: (m.disponivel_kb * 1024) as u64,
                    swap_total: (m.swap_total_kb * 1024) as u64,
                    swap_usado: (swap_usado * 1024) as u64,
                })
            }),
    {
        let total = m.total_kb.checked_mul(1024);
        let usado = m.usado_kb().checked_mul(1024);
        let livre = m.disponivel_kb.checked_mul(1024);
        let swap_total = m.swap_total_kb.checked_mul(1024);
        let swap_usado = m.swap_usado_kb().checked_mul(1024);
        match (total, usado, livre, swap_total, swap_usado) {
            (Some(total), Some(usado), Some(livre), Some(swap_total), Some(swap_usado)) => Some(
                MemoryMetrics { total, usado, livre, swap_total, swap_usado },
            ),
            _ => None,
        }
    }
}

/// Uma interface de rede para exibição.
#[derive(Clone, Debug)]
pub struct NetworkMetrics {
    pub interface: String,
    pub ip: Option<String>,
    pub flags: Vec<String>,
    pub mtu: Option<u32>,
    pub bytes_enviados: u64,
    pub bytes_recebidos: u64,
    pub pacotes_enviados: u64,
    pub pacotes_recebidos: u64,
}

impl NetworkMetrics {
    /// An interface from `ifconfig`: no counters (all zero).
    pub fn de_interface_info(i: InterfaceInfo) -> (r: NetworkMetrics)
        ensures
            r.interface@ == i.nome@,
            opt_vista(r.ip) == opt_vista(i.ip),
            vistas_string(r.flags@) == vistas_string(i.flags@),
            r.mtu == i.mtu,
            r.bytes_enviados == 0,
            r.bytes_recebidos == 0,
            r.pacotes_enviados == 0,
            r.pacotes_recebidos == 0,
    {
        NetworkMetrics {
            interface: i.nome,
            ip: i.ip,
            flags: i.flags,
            mtu: i.mtu,
            bytes_enviados: 0,
            bytes_recebidos: 0,
            pacotes_enviados: 0,
            pacotes_recebidos: 0,
        }
    }

    /// An interface from `/proc/net/dev`: sent is tx, received is rx.
    pub fn de_interface_linux(i: InterfaceLinux) -> (r: NetworkMetrics)
        ensures
            r.interface@ == i.nome@,
            opt_vista(r.ip) == opt_vista(i.ip),
            vistas_string(r.flags@) == vistas_string(i.flags@),
            r.mtu == i.mtu,
            r.bytes_enviados == i.tx_bytes,
            r.bytes_recebidos == i.rx_bytes,
            r.pacotes_enviados == i.tx_packets,
            r.pacotes_recebidos == i.rx_packets,
    {
        NetworkMetrics {
            interface: i.nome,
            ip: i.ip,
            flags: i.flags,
            mtu: i.mtu,
            bytes_enviados: i.tx_bytes,
            bytes_recebidos: i.rx_bytes,
            pacotes_enviados: i.tx_packets,
            pacotes_recebidos: i.rx_packets,
        }
    }
}

/// Decide o ambiente uma vez e guarda o nome do sistema.
pub struct MetricsCollector {
    /// Cache do nome do OS — detectado uma vez e reutilizado.
    os_nome: String,
    /// true = estamos no Termux/Android; false = Linux nativo.
    termux: bool,
}

impl MetricsCollector {
    pub closed spec fn spec_termux(&self) -> bool {
        self.termux
    }

    pub closed spec fn spec_os_nome(&self) -> Seq<char> {
        self.os_nome@
    }

    /// The cached system name is never empty.
    #[verifier::type_invariant]
    spec fn nome_nao_vazio(&self) -> bool {
        self.os_nome@.len() > 0
    }

    /// O coletor para o ambiente dado: se `TERMUX_VERSION` está definida, o valor de
    /// `PREFIX`, se `/data/data/com.termux` existe e o texto de `/etc/os-release`.
    pub fn new(
        termux_version_definida: bool,
        prefix: Option<&str>,
        dir_termux_existe: bool,
        os_release: Option<&str>,
    ) -> (r: Self)
        ensures
            r.spec_termux() == termux(
                termux_version_definida,
                opt_vista_str(prefix),
                dir_termux_existe,
            ),
            r.spec_os_nome() == nome_os(r.spec_termux(), opt_vista_str(os_release)),
            r.spec_os_nome().len() > 0,
    {
        let termux = is_termux(termux_version_definida, prefix, dir_termux_existe);
        let os_nome = detectar_os(termux, os_release);
        MetricsCollector { os_nome, termux }
    }

    /// Estamos no Termux/Android?
    pub fn em_termux(&self) -> (b: bool)
        ensures
            b == self.spec_termux(),
    {
        self.termux
    }

    /// O nome do sistema detectado.
    pub fn os_nome(&self) -> (r: String)
        ensures
            r@ == self.spec_os_nome(),
            r@.len() > 0,
    {
        proof {
            use_type_invariant(self);
        }
        self.os_nome.clone()
    }
}

/// O nome da CPU: `"{n} cores"`.
pub fn texto_nucleos(n: usize) -> (r: String)
    ensures
        r@ == decimal(n as nat) + " cores"@,
{
    let mut r = String::new();
    escrever_decimal(&mut r, n as u64);
    r.append(" cores");
    r
}

} // verus!
