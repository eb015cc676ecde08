use vstd::prelude::*;
use crate::memoria::sub_sat;
use crate::texto::{
    aparar, aparar_espacos, chars_de, comeca, comeca_com, igual_a, linhas, num_natural, num_u64,
    num_u64_exec, num_u8, num_u8_exec, numero, palavras, separar_linhas, separar_palavras,
    vistas, vistas_str,
};

verus! {

/// Snapshot cru de contadores do /proc/stat para UM core (ou "cpu" agregado).
#[derive(Clone, Debug, Default)]
pub struct StatSnapshot {
    pub user: u64,
    pub nice: u64,
    pub system: u64,
    pub idle: u64,
    pub iowait: u64,
    pub irq: u64,
    pub softirq: u64,
    pub steal: u64,
}

impl StatSnapshot {
    /// The sum of all eight counters.
    pub open spec fn soma(&self) -> int {
        self.user + self.nice + self.system + self.idle + self.iowait + self.irq + self.softirq
            + self.steal
    }

    /// Does the sum of the counters fit in a `u64` (so that `total` may be asked)?
    pub fn total_cabe(&self) -> (b: bool)
        ensures
            b == (self.soma() <= u64::MAX),
    {
        let t = self.user as u128 + self.nice as u128 + self.system as u128 + self.idle as u128
            + self.iowait as u128 + self.irq as u128 + self.softirq as u128
            + self.steal as u128;
        t <= u64::MAX as u128
    }

    /// All time counted, busy or not.
    pub fn total(&self) -> (r: u64)
        requires
            self.soma() <= u64::MAX,
        ensures
            r == self.soma(),
    {
        self.user + self.nice + self.system + self.idle + self.iowait + self.irq + self.softirq
            + self.steal
    }

    /// Busy time: the total less idle and iowait.
    pub fn ocupado(&self) -> (r: u64)
        requires
            self.soma() <= u64::MAX,
        ensures
            r == self.soma() - self.idle - self.iowait,
            r <= self.soma(),
    {
        self.total().saturating_sub(self.idle + self.iowait)
    }
}

pub open spec fn stat_zero() -> StatSnapshot {
    StatSnapshot {
        user: 0,
        nice: 0,
        system: 0,
        idle: 0,
        iowait: 0,
        irq: 0,
        softirq: 0,
        steal: 0,
    }
}

/// Word `i` read as a number, 0 when it is missing or no number.
pub open spec fn campo_num(p: Seq<Seq<char>>, i: int) -> u64 {
    if 0 <= i < p.len() {
        match num_u64(p[i]) {
            Some(v) => v,
            None => 0,
        }
    } else {
        0
    }
}

/// The counters of one `/proc/stat` line split in words: words 1 to 8.
pub open spec fn stat_de(p: Seq<Seq<char>>) -> StatSnapshot {
    StatSnapshot {
        user: campo_num(p, 1),
        nice: campo_num(p, 2),
        system: campo_num(p, 3),
        idle: campo_num(p, 4),
        iowait: campo_num(p, 5),
        irq: campo_num(p, 6),
        softirq: campo_num(p, 7),
        steal: campo_num(p, 8),
    }
}

pub fn campo_num_exec(p: &Vec<Vec<char>>, i: usize) -> (r: u64)
    ensures
        r == campo_num(vistas(p@), i as int),
{
    if i < p.len() {
        match num_u64_exec(p[i].as_slice()) {
            Some(v) => v,
            None => 0,
        }
    } else {
        0
    }
}

fn stat_de_palavras(p: &Vec<Vec<char>>) -> (s: StatSnapshot)
    ensures
        s == stat_de(vistas(p@)),
{
    StatSnapshot {
        user: campo_num_exec(p, 1),
        nice: campo_num_exec(p, 2),
        system: campo_num_exec(p, 3),
        idle: campo_num_exec(p, 4),
        iowait: campo_num_exec(p, 5),
        irq: campo_num_exec(p, 6),
        softirq: campo_num_exec(p, 7),
        steal: campo_num_exec(p, 8),
    }
}

/// Reads the counters from the words of one `/proc/stat` line.
pub fn parse_stat_linha(partes: &[&str]) -> (s: StatSnapshot)
    ensures
        s == stat_de(vistas_str(partes@)),
{
    let mut p: Vec<Vec<char>> = Vec::new();
    let mut i: usize = 0;
    assert(vistas_str(partes@.take(0)) =~= vistas(p@));
    while i < partes.len()
        invariant
            i <= partes@.len(),
            vistas(p@) == vistas_str(partes@.take(i as int)),
        decreases partes@.len() - i,
    {
        let c = chars_de(partes[i]);
        let ghost antes = vistas(p@);
        p.push(c);
        assert(vistas(p@) =~= antes.push(c@));
        assert(vistas_str(partes@.take(i + 1)) =~= vistas_str(partes@.take(i as int)).push(partes@[i as int]@));
        i = i + 1;
    }
    assert(partes@.take(partes@.len() as int) =~= partes@);
    stat_de_palavras(&p)
}

/// Does this `/proc/stat` word name one core (`"cpu"` then a `usize`)?
pub open spec fn nome_de_core(w: Seq<char>) -> bool {
    comeca_com(w, "cpu"@) && w.len() > 3 && num_natural(w.subrange(3, w.len() as int), usize::MAX as nat) is Some
}

/// What one line of `/proc/stat` does: the `cpu` line sets the aggregate, a `cpuN`
/// line adds a core, any other line changes nothing.
pub open spec fn passo_stat(e: (StatSnapshot, Seq<StatSnapshot>), linha: Seq<char>) -> (StatSnapshot, Seq<StatSnapshot>) {
    let p = palavras(linha);
    if p.len() == 0 {
        e
    } else if p[0] == "cpu"@ {
        (stat_de(p), e.1)
    } else if nome_de_core(p[0]) {
        (e.0, e.1.push(stat_de(p)))
    } else {
        e
    }
}

pub open spec fn stat_linhas(ls: Seq<Seq<char>>) -> (StatSnapshot, Seq<StatSnapshot>)
    decreases ls.len(),
{
    if ls.len() == 0 {
        (stat_zero(), Seq::empty())
    } else {
        passo_stat(stat_linhas(ls.drop_last()), ls.last())
    }
}

/// Lê o texto de `/proc/stat`: (snapshot global, snapshot de cada core).
pub fn parsear_stat(conteudo: &str) -> (r: (StatSnapshot, Vec<StatSnapshot>))
    ensures
        (r.0, r.1@) == stat_linhas(linhas(conteudo@)),
{
    let cs = chars_de(conteudo);
    let ls = separar_linhas(cs.as_slice());
    let ghost lv = vistas(ls@);
    let mut global = StatSnapshot {
        user: 0,
        nice: 0,
        system: 0,
        idle: 0,
        iowait: 0,
        irq: 0,
        softirq: 0,
        steal: 0,
    };
    let mut cores: Vec<StatSnapshot> = Vec::new();
    let n = ls.len();
    let mut i: usize = 0;
    assert(lv.take(0) =~= Seq::<Seq<char>>::empty());
    while i < n
        invariant
            n == ls@.len(),
            lv == vistas(ls@),
            lv == linhas(cs@),
            i <= n,
            (global, cores@) == stat_linhas(lv.take(i as int)),
        decreases n - i,
    {
        assert(lv.take(i + 1).drop_last() =~= lv.take(i as int));
        assert(lv.take(i + 1).last() == ls@[i as int]@);
        let p = separar_palavras(ls[i].as_slice());
        if p.len() > 0 {
            let nome = p[0].as_slice();
            if igual_a(nome, "cpu") {
                global = stat_de_palavras(&p);
            } else {
                let pre = chars_de("cpu");
                if comeca(nome, pre.as_slice()) && nome.len() > 3 {
                    let resto = crate::texto::copiar_de(nome, 3);
                    if numero(resto.as_slice(), usize::MAX as u64).is_some() {
                        let s = stat_de_palavras(&p);
                        cores.push(s);
                    }
                }
            }
        }
        i = i + 1;
    }
    assert(lv.take(n as int) =~= lv);
    (global, cores)
}

/// Busy time of a snapshot: the total less idle and iowait.
pub open spec fn ocupado_spec(s: StatSnapshot) -> int {
    s.soma() - s.idle - s.iowait
}

/// The usage between two snapshots as `(busy, total)` deltas, busy capped at total;
/// `None` when the total did not move. `uso% = delta_ocupado / delta_total × 100`.
pub open spec fn uso(antes: StatSnapshot, depois: StatSnapshot) -> Option<(u64, u64)> {
    let dt = sub_sat(depois.soma() as u64, antes.soma() as u64);
    let dop = sub_sat(ocupado_spec(depois) as u64, ocupado_spec(antes) as u64);
    if dt == 0 {
        None
    } else {
        Some((if dop <= dt { dop } else { dt }, dt))
    }
}

/// O uso entre dois snapshots como fração `(ocupado, total)` dos deltas, com o
/// ocupado limitado ao total; `None` quando o total não andou (uso zero).
pub fn fracao_uso(antes: &StatSnapshot, depois: &StatSnapshot) -> (r: Option<(u64, u64)>)
    requires
        antes.soma() <= u64::MAX,
        depois.soma() <= u64::MAX,
    ensures
        r == uso(*antes, *depois),
{
    let dt = depois.total().saturating_sub(antes.total());
    let dop = depois.ocupado().saturating_sub(antes.ocupado());
    if dt == 0 {
        None
    } else if dop <= dt {
        Some((dop, dt))
    } else {
        Some((dt, dt))
    }
}

/// How many cores both readings of `/proc/stat` have.
pub open spec fn nucleos_comuns(a: Seq<StatSnapshot>, d: Seq<StatSnapshot>) -> nat {
    if a.len() <= d.len() {
        a.len()
    } else {
        d.len()
    }
}

/// The usage of each core common to both readings; with no core lines, one entry
/// with the aggregate usage (and `false`: not measured per core).
pub open spec fn usos_por_core(
    a: Seq<StatSnapshot>,
    d: Seq<StatSnapshot>,
    ga: StatSnapshot,
    gd: StatSnapshot,
) -> (Seq<Option<(u64, u64)>>, bool) {
    let n = nucleos_comuns(a, d);
    if n > 0 {
        (Seq::new(n, |i: int| uso(a[i], d[i])), true)
    } else {
        (seq![uso(ga, gd)], false)
    }
}

/// O uso de cada core entre duas leituras de `/proc/stat` (os cores presentes nas
/// duas); sem linhas de core, uma única entrada com o uso agregado, e `false`.
pub fn uso_por_core(
    antes: &[StatSnapshot],
    depois: &[StatSnapshot],
    g_antes: &StatSnapshot,
    g_depois: &StatSnapshot,
) -> (r: (Vec<Option<(u64, u64)>>, bool))
    requires
        forall|i: int| 0 <= i < nucleos_comuns(antes@, depois@) ==> #[trigger] antes@[i].soma() <= u64::MAX
            && depois@[i].soma() <= u64::MAX,
        g_antes.soma() <= u64::MAX,
        g_depois.soma() <= u64::MAX,
    ensures
        (r.0@, r.1) == usos_por_core(antes@, depois@, *g_antes, *g_depois),
{
    let n = if antes.len() <= depois.len() {
        antes.len()
    } else {
        depois.len()
    };
    let mut r: Vec<Option<(u64, u64)>> = Vec::new();
    if n == 0 {
        r.push(fracao_uso(g_antes, g_depois));
        assert(r@ =~= seq![uso(*g_antes, *g_depois)]);
        return (r, false);
    }
    let mut i: usize = 0;
    while i < n
        invariant
            n == nucleos_comuns(antes@, depois@),
            n <= antes@.len(),
            n <= depois@.len(),
            i <= n,
            forall|k: int| 0 <= k < nucleos_comuns(antes@, depois@) ==> #[trigger] antes@[k].soma() <= u64::MAX
                && depois@[k].soma() <= u64::MAX,
            r@ =~= Seq::new(i as nat, |k: int| uso(antes@[k], depois@[k])),
        decreases n - i,
    {
        assert(antes@[i as int].soma() <= u64::MAX);
        r.push(fracao_uso(&antes[i], &depois[i]));
        i = i + 1;
    }
    (r, true)
}

/// The usage is a fraction of a positive total no larger than it: between 0% and 100%.
pub proof fn lei_uso_entre_0_e_100(antes: StatSnapshot, depois: StatSnapshot)
    ensures
        uso(antes, depois) matches Some((o, t)) ==> 0 <= o <= t && t > 0,
{
}

/// When only idle and iowait advanced, nothing was busy: the usage is zero.
pub proof fn lei_uso_ocioso(antes: StatSnapshot, depois: StatSnapshot)
    requires
        antes.soma() <= u64::MAX,
        depois.soma() <= u64::MAX,
        depois.user == antes.user,
        depois.nice == antes.nice,
        depois.system == antes.system,
        depois.irq == antes.irq,
        depois.softirq == antes.softirq,
        depois.steal == antes.steal,
        depois.idle >= antes.idle,
        depois.iowait >= antes.iowait,
    ensures
        uso(antes, depois) matches Some((o, t)) ==> o == 0,
{
}

/// When idle and iowait stood still and the total moved, all of it was busy: 100%.
pub proof fn lei_uso_pleno(antes: StatSnapshot, depois: StatSnapshot)
    requires
        antes.soma() <= u64::MAX,
        depois.soma() <= u64::MAX,
        depois.idle == antes.idle,
        depois.iowait == antes.iowait,
        depois.soma() > antes.soma(),
    ensures
        uso(antes, depois) matches Some((o, t)) && o == t,
{
}

/// With every counter moving forward and the total moving, the usage is the time spent
/// in user, nice, system, irq, softirq and steal over the time spent in all eight
/// counters, both between the two readings.
pub proof fn lei_uso_por_contadores(antes: StatSnapshot, depois: StatSnapshot)
    requires
        antes.soma() <= u64::MAX,
        depois.soma() <= u64::MAX,
        depois.user >= antes.user,
        depois.nice >= antes.nice,
        depois.system >= antes.system,
        depois.idle >= antes.idle,
        depois.iowait >= antes.iowait,
        depois.irq >= antes.irq,
        depois.softirq >= antes.softirq,
        depois.steal >= antes.steal,
        depois.soma() > antes.soma(),
    ensures
        uso(antes, depois) == Some(
            (
                ((depois.user - antes.user) + (depois.nice - antes.nice) + (depois.system
                    - antes.system) + (depois.irq - antes.irq) + (depois.softirq - antes.softirq)
                    + (depois.steal - antes.steal)) as u64,
                ((depois.user - antes.user) + (depois.nice - antes.nice) + (depois.system
                    - antes.system) + (depois.idle - antes.idle) + (depois.iowait - antes.iowait)
                    + (depois.irq - antes.irq) + (depois.softirq - antes.softirq) + (depois.steal
                    - antes.steal)) as u64,
            ),
        ),
{
}

/// In general: no usage when the sum of the counters did not grow; otherwise the busy
/// time (the sum less idle and iowait) that passed, none when it went back, capped at
/// the time that passed, over the time that passed.
pub proof fn lei_uso_geral(antes: StatSnapshot, depois: StatSnapshot)
    requires
        antes.soma() <= u64::MAX,
        depois.soma() <= u64::MAX,
    ensures
        depois.soma() <= antes.soma() ==> uso(antes, depois) is None,
        depois.soma() > antes.soma() ==> ({
            let dt = depois.soma() - antes.soma();
            let db = (depois.soma() - depois.idle - depois.iowait) - (antes.soma() - antes.idle
                - antes.iowait);
            let parte = if db <= 0 { 0 } else if db <= dt { db } else { dt };
            uso(antes, depois) == Some((parte as u64, dt as u64))
        }),
{
}

/// A frequency file read as kHz: its trimmed text as a number, 0 when the file was
/// missing or holds no number.
pub open spec fn khz(conteudo: Option<Seq<char>>) -> u64 {
    match conteudo {
        Some(s) => match num_u64(aparar(s)) {
            Some(v) => v,
            None => 0,
        },
        None => 0,
    }
}

pub fn khz_de(conteudo: Option<&str>) -> (r: u64)
    ensures
        r == khz(match conteudo { Some(s) => Some(s@), None => None }),
{
    match conteudo {
        Some(s) => {
            let cs = chars_de(s);
            let t = aparar_espacos(cs.as_slice());
            match num_u64_exec(t.as_slice()) {
                Some(v) => v,
                None => 0,
            }
        },
        None => 0,
    }
}

/// Frequência atual e máxima de um core em MHz, a partir do texto de
/// `scaling_cur_freq` e de `cpuinfo_max_freq` (kHz).
pub fn freq_mhz(cur: Option<&str>, max: Option<&str>) -> (r: (u64, u64))
    ensures
        r.0 == khz(match cur { Some(s) => Some(s@), None => None }) / 1000,
        r.1 == khz(match max { Some(s) => Some(s@), None => None }) / 1000,
{
    (khz_de(cur) / 1000, khz_de(max) / 1000)
}

/// A core is online unless its `online` file holds a number other than 1.
pub open spec fn online(conteudo: Option<Seq<char>>) -> bool {
    match conteudo {
        Some(s) => match num_u8(aparar(s)) {
            Some(v) => v == 1,
            None => true,
        },
        None => true,
    }
}

/// Whether a core is online, from the text of its `online` file (`None` when the
/// file is missing or unreadable).
pub fn core_online(conteudo: Option<&str>) -> (b: bool)
    ensures
        b == online(match conteudo { Some(s) => Some(s@), None => None }),
{
    match conteudo {
        Some(s) => {
            let cs = chars_de(s);
            let t = aparar_espacos(cs.as_slice());
            match num_u8_exec(t.as_slice()) {
                Some(v) => v == 1,
                None => true,
            }
        },
        None => true,
    }
}

/// The clock-based load: the current frequency capped at the maximum, over the
/// maximum; `None` for a core offline or without maximum.
pub open spec fn carga_freq(khz_atual: u64, khz_max: u64, online: bool) -> Option<(u64, u64)> {
    if khz_max > 0 && online {
        Some((if khz_atual <= khz_max { khz_atual } else { khz_max }, khz_max))
    } else {
        None
    }
}

/// A core's load estimated from its clock (Android): `(atual, máxima)` with the
/// current frequency capped at the maximum; `None` (load zero) for a core offline or
/// without maximum.
pub fn fracao_freq(khz_atual: u64, khz_max: u64, online: bool) -> (r: Option<(u64, u64)>)
    ensures
        r == carga_freq(khz_atual, khz_max, online),
{
    if khz_max > 0 && online {
        if khz_atual <= khz_max {
            Some((khz_atual, khz_max))
        } else {
            Some((khz_max, khz_max))
        }
    } else {
        None
    }
}

/// A clock-based load is also a fraction no larger than its whole: 0% to 100%.
pub proof fn lei_freq_entre_0_e_100(khz_atual: u64, khz_max: u64, online: bool)
    ensures
        carga_freq(khz_atual, khz_max, online) matches Some((o, t)) ==> o <= t && t > 0,
{
}

} // verus!
