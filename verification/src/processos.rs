use vstd::prelude::*;
use crate::cpu::{campo_num, campo_num_exec};
use crate::memoria::sub_sat;
use crate::texto::{chars_de, num_u32, num_u32_exec, num_u64, num_u64_exec, palavras, separar_palavras};

verus! {

/// O PID que nomeia uma entrada de `/proc`, se o nome for um `u32`.
pub fn pid_de(nome: &str) -> (r: Option<u32>)
    ensures
        r == num_u32(nome@),
{
    let cs = chars_de(nome);
    num_u32_exec(cs.as_slice())
}

/// `(utime, stime)`: words 13 and 14 of `/proc/<pid>/stat`, both numbers.
pub open spec fn tempos(stat: Seq<char>) -> Option<(u64, u64)> {
    let p = palavras(stat);
    if p.len() > 14 {
        match (num_u64(p[13]), num_u64(p[14])) {
            (Some(u), Some(s)) => Some((u, s)),
            _ => None,
        }
    } else {
        None
    }
}

/// Os tempos de CPU `(utime, stime)` de um processo, em ticks, lidos do texto de
/// `/proc/<pid>/stat`; `None` quando faltam ou não são números.
pub fn tempos_proc(stat: &str) -> (r: Option<(u64, u64)>)
    ensures
        r == tempos(stat@),
{
    let cs = chars_de(stat);
    let p = separar_palavras(cs.as_slice());
    if p.len() > 14 {
        match (num_u64_exec(p[13].as_slice()), num_u64_exec(p[14].as_slice())) {
            (Some(u), Some(s)) => Some((u, s)),
            _ => None,
        }
    } else {
        None
    }
}

/// As páginas residentes de um processo: a segunda palavra de `/proc/<pid>/statm`
/// como número, ou 0.
pub fn paginas_statm(statm: &str) -> (r: u64)
    ensures
        r == campo_num(palavras(statm@), 1),
{
    let cs = chars_de(statm);
    let p = separar_palavras(cs.as_slice());
    campo_num_exec(&p, 1)
}

/// A process's CPU share between two readings: the ticks it used (capped at the
/// elapsed ticks) over the elapsed ticks; `None` (share zero) when no time elapsed or
/// either reading of its ticks is missing.
pub open spec fn parcela_cpu(t1: Option<u64>, t2: Option<u64>, decorrido: u64) -> Option<(u64, u64)> {
    match (t1, t2) {
        (Some(a), Some(b)) => if decorrido > 0 {
            let d = sub_sat(b, a);
            Some((if d <= decorrido { d } else { decorrido }, decorrido))
        } else {
            None
        },
        _ => None,
    }
}

/// A fração de CPU de um processo entre duas leituras dos seus ticks (`t1`, `t2`)
/// separadas por `decorrido` ticks do sistema.
pub fn fracao_cpu_proc(t1: Option<u64>, t2: Option<u64>, decorrido: u64) -> (r: Option<(u64, u64)>)
    ensures
        r == parcela_cpu(t1, t2, decorrido),
{
    match (t1, t2) {
        (Some(a), Some(b)) => {
            if decorrido > 0 {
                let d = b.saturating_sub(a);
                if d <= decorrido {
                    Some((d, decorrido))
                } else {
                    Some((decorrido, decorrido))
                }
            } else {
                None
            }
        },
        _ => None,
    }
}

/// A process's share is a fraction no larger than its whole: 0% to 100%.
pub proof fn lei_parcela_cpu_limitada(t1: Option<u64>, t2: Option<u64>, decorrido: u64)
    ensures
        parcela_cpu(t1, t2, decorrido) matches Some((o, t)) ==> o <= t && t > 0,
{
}

/// How many processes the list keeps: the busiest ones.
pub const MAX_PROCESSOS: usize = 15;

/// Process `a` is listed before process `b`: the larger key first and, of two equal
/// keys, the one read first (the order that a stable sort keeps).
pub open spec fn antes(chaves: Seq<u64>, a: int, b: int) -> bool {
    chaves[a] > chaves[b] || (chaves[a] == chaves[b] && a < b)
}

/// The indices of the processes to list, busiest first: all of them ordered by key from
/// largest to smallest, equal keys in the order read, cut to `MAX_PROCESSOS`.
pub fn top_processos(chaves: &[u64]) -> (r: Vec<usize>)
    ensures
        r.len() == if chaves.len() < MAX_PROCESSOS { chaves.len() } else { MAX_PROCESSOS },
        forall|i: int| 0 <= i < r.len() ==> r[i] < chaves.len(),
        forall|i: int, j: int|
            0 <= i < j < r.len() ==> antes(chaves@, r[i] as int, r[j] as int),
        forall|i: int, u: usize|
            #![trigger r[i], r@.contains(u)]
            0 <= i < r.len() && u < chaves.len() && !r@.contains(u) ==> antes(
                chaves@,
                r[i] as int,
                u as int,
            ),
{
    let n = chaves.len();
    let limite = if n < MAX_PROCESSOS { n } else { MAX_PROCESSOS };
    let ghost ch = chaves@;
    let mut resto: Vec<usize> = Vec::new();
    let mut k: usize = 0;
    while k < n
        invariant
            k <= n,
            resto.len() == k,
            forall|j: int| 0 <= j < k ==> resto[j] == j,
        decreases n - k,
    {
        resto.push(k);
        k = k + 1;
    }
    let mut r: Vec<usize> = Vec::new();
    assert forall|u: usize| u < n implies r@.contains(u) || resto@.contains(u) by {
        assert(resto@[u as int] == u);
    }
    while r.len() < limite
        invariant
            n == chaves.len(),
            ch == chaves@,
            limite <= n,
            limite == if n < MAX_PROCESSOS { n } else { MAX_PROCESSOS },
            r.len() <= limite,
            r.len() + resto.len() == n,
            forall|i: int| 0 <= i < r.len() ==> r[i] < n,
            forall|j: int| 0 <= j < resto.len() ==> resto[j] < n,
            forall|a: int, b: int| 0 <= a < b < resto.len() ==> resto[a] != resto[b],
            forall|i: int, j: int| 0 <= i < j < r.len() ==> antes(ch, r[i] as int, r[j] as int),
            forall|i: int, j: int|
                0 <= i < r.len() && 0 <= j < resto.len() ==> antes(
                    ch,
                    r[i] as int,
                    resto[j] as int,
                ),
            forall|u: usize| u < n ==> r@.contains(u) || resto@.contains(u),
        decreases limite - r.len(),
    {
        let mut p: usize = 0;
        let mut q: usize = 1;
        while q < resto.len()
            invariant
                p < q <= resto.len(),
                ch == chaves@,
                forall|j: int| 0 <= j < resto.len() ==> resto[j] < chaves.len(),
                forall|a: int, b: int| 0 <= a < b < resto.len() ==> resto[a] != resto[b],
                forall|j: int| 0 <= j < q && j != p ==> antes(ch, resto[p as int] as int, resto[j] as int),
            decreases resto.len() - q,
        {
            let a = resto[p];
            let b = resto[q];
            if chaves[b] > chaves[a] || (chaves[b] == chaves[a] && b < a) {
                p = q;
            }
            q = q + 1;
        }
        let ghost r0 = r@;
        let ghost resto0 = resto@;
        let x = resto.remove(p);
        r.push(x);
        assert forall|u: usize| u < n implies r@.contains(u) || resto@.contains(u) by {
            if r0.contains(u) {
                let i = choose|i: int| 0 <= i < r0.len() && r0[i] == u;
                assert(r@[i] == u);
            } else {
                let j = choose|j: int| 0 <= j < resto0.len() && resto0[j] == u;
                if j == p {
                    assert(r@[r0.len() as int] == u);
                } else if j < p {
                    assert(resto@[j] == u);
                } else {
                    assert(resto@[j - 1] == u);
                }
            }
        }
    }
    assert forall|i: int, u: usize|
        #![trigger r[i], r@.contains(u)]
        0 <= i < r.len() && u < chaves.len() && !r@.contains(u) implies antes(
            chaves@,
            r[i] as int,
            u as int,
        ) by {
        let j = choose|j: int| 0 <= j < resto@.len() && resto@[j] == u;
        assert(antes(ch, r[i] as int, resto[j] as int));
    }
    r
}

} // verus!
