use vstd::prelude::*;
use crate::texto::{
    chars_de, igual_a, linhas, num_u64, num_u64_exec, palavras, separar_linhas,
    separar_palavras, vistas,
};

verus! {

/// Contadores de memória lidos de `/proc/meminfo`, em kB.
#[derive(Clone, Debug)]
pub struct MemAndroid {
    pub total_kb: u64,
    pub livre_kb: u64,
    pub disponivel_kb: u64,
    pub buffers_kb: u64,
    pub cached_kb: u64,
    pub swap_total_kb: u64,
    pub swap_livre_kb: u64,
}

/// Subtração que para em zero.
pub open spec fn sub_sat(a: u64, b: u64) -> u64 {
    if a >= b {
        (a - b) as u64
    } else {
        0
    }
}

impl MemAndroid {
    /// RAM em uso: total menos disponível, nunca negativo.
    pub fn usado_kb(&self) -> (r: u64)
        ensures
            r == sub_sat(self.total_kb, self.disponivel_kb),
            r <= self.total_kb,
    {
        self.total_kb.saturating_sub(self.disponivel_kb)
    }

    /// SWAP em uso: total menos livre, nunca negativo.
    pub fn swap_usado_kb(&self) -> (r: u64)
        ensures
            r == sub_sat(self.swap_total_kb, self.swap_livre_kb),
            r <= self.swap_total_kb,
    {
        self.swap_total_kb.saturating_sub(self.swap_livre_kb)
    }

    /// A RAM em uso como fração `(usado, total)` do total; `None` sem total
    /// (então a porcentagem é zero).
    pub fn fracao_ram(&self) -> (r: Option<(u64, u64)>)
        ensures
            r == if self.total_kb == 0 {
                None
            } else {
                Some((sub_sat(self.total_kb, self.disponivel_kb), self.total_kb))
            },
    {
        if self.total_kb == 0 {
            None
        } else {
            Some((self.usado_kb(), self.total_kb))
        }
    }

    /// A SWAP em uso como fração `(usado, total)` do total; `None` sem SWAP.
    pub fn fracao_swap(&self) -> (r: Option<(u64, u64)>)
        ensures
            r == if self.swap_total_kb == 0 {
                None
            } else {
                Some((sub_sat(self.swap_total_kb, self.swap_livre_kb), self.swap_total_kb))
            },
    {
        if self.swap_total_kb == 0 {
            None
        } else {
            Some((self.swap_usado_kb(), self.swap_total_kb))
        }
    }
}

pub open spec fn mem_zerada() -> MemAndroid {
    MemAndroid {
        total_kb: 0,
        livre_kb: 0,
        disponivel_kb: 0,
        buffers_kb: 0,
        cached_kb: 0,
        swap_total_kb: 0,
        swap_livre_kb: 0,
    }
}

/// What one line of `/proc/meminfo` does to the counters: a line of at least two
/// words whose first word names a known field sets that field to the second word
/// read as a number (0 when it is none).
pub open spec fn campo_meminfo(m: MemAndroid, linha: Seq<char>) -> MemAndroid {
    let p = palavras(linha);
    if p.len() < 2 {
        m
    } else {
        let v: u64 = match num_u64(p[1]) {
            Some(x) => x,
            None => 0,
        };
        if p[0] == "MemTotal:"@ {
            MemAndroid { total_kb: v, ..m }
        } else if p[0] == "MemFree:"@ {
            MemAndroid { livre_kb: v, ..m }
        } else if p[0] == "MemAvailable:"@ {
            MemAndroid { disponivel_kb: v, ..m }
        } else if p[0] == "Buffers:"@ {
            MemAndroid { buffers_kb: v, ..m }
        } else if p[0] == "Cached:"@ {
            MemAndroid { cached_kb: v, ..m }
        } else if p[0] == "SwapTotal:"@ {
            MemAndroid { swap_total_kb: v, ..m }
        } else if p[0] == "SwapFree:"@ {
            MemAndroid { swap_livre_kb: v, ..m }
        } else {
            m
        }
    }
}

/// The counters after the given lines, from all zeros.
pub open spec fn meminfo(ls: Seq<Seq<char>>) -> MemAndroid
    decreases ls.len(),
{
    if ls.len() == 0 {
        mem_zerada()
    } else {
        campo_meminfo(meminfo(ls.drop_last()), ls.last())
    }
}

/// Lê o texto de `/proc/meminfo`.
pub fn parsear_meminfo(conteudo: &str) -> (m: MemAndroid)
    ensures
        m == meminfo(linhas(conteudo@)),
{
    let cs = chars_de(conteudo);
    let ls = separar_linhas(cs.as_slice());
    let mut m = MemAndroid {
        total_kb: 0,
        livre_kb: 0,
        disponivel_kb: 0,
        buffers_kb: 0,
        cached_kb: 0,
        swap_total_kb: 0,
        swap_livre_kb: 0,
    };
    let ghost lv = vistas(ls@);
    let n = ls.len();
    let mut i: usize = 0;
    assert(lv.take(0) =~= Seq::<Seq<char>>::empty());
    while i < n
        invariant
            n == ls@.len(),
            lv == vistas(ls@),
            lv == linhas(cs@),
            i <= n,
            m == meminfo(lv.take(i as int)),
        decreases n - i,
    {
        assert(lv.take(i + 1).drop_last() =~= lv.take(i as int));
        assert(lv.take(i + 1).last() == ls@[i as int]@);
        let p = separar_palavras(ls[i].as_slice());
        if p.len() >= 2 {
            let v: u64 = match num_u64_exec(p[1].as_slice()) {
                Some(x) => x,
                None => 0,
            };
            let k = p[0].as_slice();
            if igual_a(k, "MemTotal:") {
                m.total_kb = v;
            } else if igual_a(k, "MemFree:") {
                m.livre_kb = v;
            } else if igual_a(k, "MemAvailable:") {
                m.disponivel_kb = v;
            } else if igual_a(k, "Buffers:") {
                m.buffers_kb = v;
            } else if igual_a(k, "Cached:") {
                m.cached_kb = v;
            } else if igual_a(k, "SwapTotal:") {
                m.swap_total_kb = v;
            } else if igual_a(k, "SwapFree:") {
                m.swap_livre_kb = v;
            }
        }
        i = i + 1;
    }
    assert(lv.take(n as int) =~= lv);
    m
}

/// RAM and SWAP in use are fractions no larger than their totals: 0% to 100%.
pub proof fn lei_memoria_entre_0_e_100(m: MemAndroid)
    ensures
        sub_sat(m.total_kb, m.disponivel_kb) <= m.total_kb,
        sub_sat(m.swap_total_kb, m.swap_livre_kb) <= m.swap_total_kb,
{
}

} // verus!
