use vstd::prelude::*;
use crate::texto::{
    Alvo, aparar, aparar_espacos, aparar_fim, aparar_inicio, aparar_por, chars_de, comeca,
    comeca_com, contem, contem_exec, copiar_de, decimal, escrever_decimal, linhas, num_i64,
    num_i64_exec, num_u64, num_u64_exec, opt_vista_str, palavras, separar_linhas,
    separar_palavras, string_de, vistas,
};

verus! {

/// Termux/Android: `TERMUX_VERSION` is set, `PREFIX` holds `com.termux`, or
/// `/data/data/com.termux` exists.
pub open spec fn termux(versao_definida: bool, prefix: Option<Seq<char>>, dir_existe: bool) -> bool {
    versao_definida || (match prefix {
        Some(p) => contem(p, "com.termux"@),
        None => false,
    }) || dir_existe
}

/// Retorna true se estiver rodando em Termux/Android, a partir do ambiente: se
/// `TERMUX_VERSION` está definida, o valor de `PREFIX` (se definido) e se o diretório
/// `/data/data/com.termux` existe.
pub fn is_termux(termux_version_definida: bool, prefix: Option<&str>, dir_termux_existe: bool) -> (b: bool)
    ensures
        b == termux(termux_version_definida, opt_vista_str(prefix), dir_termux_existe),
{
    if termux_version_definida {
        return true;
    }
    let no_prefix = match prefix {
        Some(p) => {
            let cs = chars_de(p);
            let pat = chars_de("com.termux");
            contem_exec(cs.as_slice(), pat.as_slice())
        },
        None => false,
    };
    no_prefix || dir_termux_existe
}

/// `trim_start_matches(pat)`: every leading copy of `pat` removed.
pub open spec fn sem_prefixos(s: Seq<char>, pat: Seq<char>) -> Seq<char>
    decreases s.len(),
{
    if pat.len() > 0 && comeca_com(s, pat) {
        sem_prefixos(s.subrange(pat.len() as int, s.len() as int), pat)
    } else {
        s
    }
}

/// The name that a `PRETTY_NAME=` line gives: the key removed, then quotes at both ends.
pub open spec fn nome_de_pretty(l: Seq<char>) -> Seq<char> {
    aparar_fim(aparar_inicio(sem_prefixos(l, "PRETTY_NAME="@), Alvo::Letra('"')), Alvo::Letra('"'))
}

/// The name that the first `PRETTY_NAME=` line gives.
pub open spec fn pretty_name(ls: Seq<Seq<char>>) -> Option<Seq<char>>
    decreases ls.len(),
{
    if ls.len() == 0 {
        None
    } else if comeca_com(ls[0], "PRETTY_NAME="@) {
        Some(nome_de_pretty(ls[0]))
    } else {
        pretty_name(ls.drop_first())
    }
}

/// The system name `detectar_os` gives: never empty, so a `PRETTY_NAME` line with an
/// empty value gives `"Linux"` as a missing one does.
pub open spec fn nome_os(termux: bool, os_release: Option<Seq<char>>) -> Seq<char> {
    if termux {
        "Android (Termux)"@
    } else {
        match os_release {
            Some(c) => match pretty_name(linhas(c)) {
                Some(n) => if n.len() > 0 { n } else { "Linux"@ },
                None => "Linux"@,
            },
            None => "Linux"@,
        }
    }
}

/// The system name is never empty.
pub proof fn lei_nome_os_nao_vazio(termux: bool, os_release: Option<Seq<char>>)
    ensures
        nome_os(termux, os_release).len() > 0,
{
    reveal_strlit("Linux");
    reveal_strlit("Android (Termux)");
}

fn sem_prefixos_exec(s: &[char], pat: &[char]) -> (r: Vec<char>)
    ensures
        r@ == sem_prefixos(s@, pat@),
{
    let n = s.len();
    let mut i: usize = 0;
    assert(s@.subrange(0, n as int) =~= s@);
    if pat.len() == 0 {
        return copiar_de(s, 0);
    }
    while i < n && crate::texto::ocorre_em(s, pat, i)
        invariant
            n == s@.len(),
            i <= n,
            pat@.len() > 0,
            sem_prefixos(s@, pat@) == sem_prefixos(s@.subrange(i as int, n as int), pat@),
        decreases n - i,
    {
        let ghost t = s@.subrange(i as int, n as int);
        assert(t.subrange(0, pat@.len() as int) =~= s@.subrange(i as int, i + pat@.len()));
        assert(t.subrange(pat@.len() as int, t.len() as int) =~= s@.subrange(i + pat@.len(), n as int));
        i = i + pat.len();
    }
    if i < n {
        let ghost t = s@.subrange(i as int, n as int);
        assert(!comeca_com(t, pat@)) by {
            if comeca_com(t, pat@) {
                assert(t.subrange(0, pat@.len() as int) =~= s@.subrange(i as int, i + pat@.len()));
            }
        }
    } else {
        assert(!comeca_com(s@.subrange(i as int, n as int), pat@));
    }
    copiar_de(s, i)
}

/// Nome legível do OS: `"Android (Termux)"` no Termux; senão o `PRETTY_NAME` do
/// texto de `/etc/os-release` (`None` quando não foi lido), ou `"Linux"` quando não há
/// `PRETTY_NAME` ou o seu valor é vazio.
pub fn detectar_os(termux: bool, os_release: Option<&str>) -> (r: String)
    ensures
        r@ == nome_os(termux, opt_vista_str(os_release)),
        r@.len() > 0,
{
    proof {
        lei_nome_os_nao_vazio(termux, opt_vista_str(os_release));
    }
    if termux {
        return String::from_str("Android (Termux)");
    }
    match os_release {
        Some(c) => {
            let cs = chars_de(c);
            let ls = separar_linhas(cs.as_slice());
            let ghost lv = vistas(ls@);
            let chave = chars_de("PRETTY_NAME=");
            let mut i: usize = 0;
            assert(lv.subrange(0, lv.len() as int) =~= lv);
            while i < ls.len()
                invariant
                    i <= ls@.len(),
                    lv == vistas(ls@),
                    lv == linhas(cs@),
                    cs@ == c@,
                    !termux,
                    os_release == Some(c),
                    nome_os(termux, opt_vista_str(os_release)).len() > 0,
                    chave@ == "PRETTY_NAME="@,
                    pretty_name(lv) == pretty_name(lv.subrange(i as int, lv.len() as int)),
                decreases ls@.len() - i,
            {
                let ghost t = lv.subrange(i as int, lv.len() as int);
                assert(t[0] == ls@[i as int]@);
                assert(t.drop_first() =~= lv.subrange(i + 1, lv.len() as int));
                let l = ls[i].as_slice();
                if comeca(l, chave.as_slice()) {
                    let a = sem_prefixos_exec(l, chave.as_slice());
                    let b = aparar_por(a.as_slice(), &Alvo::Letra('"'), true, true);
                    if b.len() == 0 {
                        return String::from_str("Linux");
                    }
                    return string_de(b.as_slice());
                }
                i = i + 1;
            }
            assert(lv.subrange(i as int, lv.len() as int) =~= Seq::<Seq<char>>::empty());
            String::from_str("Linux")
        },
        None => String::from_str("Linux"),
    }
}

/// Uma temperatura em miligraus: o texto aparado como `i64`.
pub fn temperatura_mili(conteudo: &str) -> (r: Option<i64>)
    ensures
        r == match num_i64(aparar(conteudo@)) {
            Some(v) => Some(v as i64),
            None => None::<i64>,
        },
{
    let cs = chars_de(conteudo);
    let t = aparar_espacos(cs.as_slice());
    num_i64_exec(t.as_slice())
}

/// `str::trim` de um texto lido (governor, nome de processo).
pub fn aparar_texto(s: &str) -> (r: String)
    ensures
        r@ == aparar(s@),
{
    let cs = chars_de(s);
    let t = aparar_espacos(cs.as_slice());
    string_de(t.as_slice())
}

/// O hostname: o texto de `/proc/sys/kernel/hostname` aparado, ou `"linux"` sem ele.
pub fn hostname_de(conteudo: Option<&str>) -> (r: String)
    ensures
        r@ == match conteudo {
            Some(c) => aparar(c@),
            None => "linux"@,
        },
{
    match conteudo {
        Some(c) => aparar_texto(c),
        None => String::from_str("linux"),
    }
}

} // verus!

verus! {

/// A word read as kHz and given in MHz, when it is a number.
pub open spec fn mhz_de_palavra() -> spec_fn(Seq<char>) -> Option<u64> {
    |w: Seq<char>| match num_u64(w) {
        Some(v) => Some((v / 1000) as u64),
        None => None,
    }
}

/// The frequencies in MHz that `scaling_available_frequencies` lists (words that are
/// no number are skipped).
pub open spec fn freqs_mhz(s: Seq<char>) -> Seq<u64> {
    palavras(s).filter_map(mhz_de_palavra())
}

pub open spec fn minimo(s: Seq<u64>) -> u64
    decreases s.len(),
{
    if s.len() <= 1 {
        s[0]
    } else {
        let m = minimo(s.drop_last());
        if s.last() < m {
            s.last()
        } else {
            m
        }
    }
}

pub open spec fn maximo(s: Seq<u64>) -> u64
    decreases s.len(),
{
    if s.len() <= 1 {
        s[0]
    } else {
        let m = maximo(s.drop_last());
        if s.last() > m {
            s.last()
        } else {
            m
        }
    }
}

/// A kHz file in MHz: its trimmed text as a number over 1000, if it was read and is one.
pub open spec fn mhz_opt(t: Option<Seq<char>>) -> Option<u64> {
    match t {
        Some(x) => match num_u64(aparar(x)) {
            Some(v) => Some((v / 1000) as u64),
            None => None,
        },
        None => None,
    }
}

/// The text `faixa_frequencia` gives.
pub open spec fn texto_faixa(disponivel: Seq<char>, min_txt: Option<Seq<char>>, max_txt: Option<Seq<char>>) -> Seq<char> {
    let f = freqs_mhz(disponivel);
    if f.len() > 0 {
        decimal(minimo(f) as nat) + " - "@ + decimal(maximo(f) as nat) + " MHz ("@ + decimal(f.len())
            + " níveis)"@
    } else {
        match (mhz_opt(min_txt), mhz_opt(max_txt)) {
            (Some(a), Some(b)) => decimal(a as nat) + " - "@ + decimal(b as nat) + " MHz"@,
            (None, Some(b)) => "até "@ + decimal(b as nat) + " MHz"@,
            (Some(a), None) => "a partir de "@ + decimal(a as nat) + " MHz"@,
            (None, None) => "não disponível"@,
        }
    }
}

fn mhz_opt_exec(t: Option<&str>) -> (r: Option<u64>)
    ensures
        r == mhz_opt(opt_vista_str(t)),
{
    match t {
        Some(x) => {
            let cs = chars_de(x);
            let a = aparar_espacos(cs.as_slice());
            match num_u64_exec(a.as_slice()) {
                Some(v) => Some(v / 1000),
                None => None,
            }
        },
        None => None,
    }
}

/// A faixa de frequência do core 0 para exibição: a partir do texto de
/// `scaling_available_frequencies` (vazio quando não existe) e, sem frequências nele,
/// dos textos de `cpuinfo_min_freq` e `cpuinfo_max_freq` (`None` quando não lidos).
pub fn faixa_frequencia(disponivel: &str, min_txt: Option<&str>, max_txt: Option<&str>) -> (r: String)
    ensures
        r@ == texto_faixa(disponivel@, opt_vista_str(min_txt), opt_vista_str(max_txt)),
{
    let cs = chars_de(disponivel);
    let ws = separar_palavras(cs.as_slice());
    let ghost wv = vistas(ws@);
    let mut f: Vec<u64> = Vec::new();
    let mut i: usize = 0;
    assert(wv.take(0).filter_map(mhz_de_palavra()) =~= Seq::<u64>::empty()) by {
        assert(wv.take(0) =~= Seq::<Seq<char>>::empty());
    }
    while i < ws.len()
        invariant
            i <= ws@.len(),
            wv == vistas(ws@),
            f@ == wv.take(i as int).filter_map(mhz_de_palavra()),
        decreases ws@.len() - i,
    {
        assert(wv[i as int] == ws@[i as int]@);
        proof {
            wv.lemma_filter_map_take_succ(mhz_de_palavra(), i as int);
        }
        match num_u64_exec(ws[i].as_slice()) {
            Some(v) => {
                f.push(v / 1000);
            },
            None => {},
        }
        assert(wv.take(i + 1).filter_map(mhz_de_palavra()) =~= wv.take(i as int).filter_map(mhz_de_palavra()) + (match mhz_de_palavra()(wv[i as int]) {
            Some(s) => seq![s],
            None => Seq::empty(),
        }));
        i = i + 1;
    }
    assert(wv.take(ws@.len() as int) =~= wv);
    let mut r = String::new();
    if f.len() > 0 {
        let mut mn = f[0];
        let mut mx = f[0];
        let mut k: usize = 1;
        assert(f@.take(1) =~= seq![f@[0]]);
        while k < f.len()
            invariant
                1 <= k <= f@.len(),
                mn == minimo(f@.take(k as int)),
                mx == maximo(f@.take(k as int)),
            decreases f@.len() - k,
        {
            assert(f@.take(k + 1).drop_last() =~= f@.take(k as int));
            if f[k] < mn {
                mn = f[k];
            }
            if f[k] > mx {
                mx = f[k];
            }
            k = k + 1;
        }
        assert(f@.take(f@.len() as int) =~= f@);
        escrever_decimal(&mut r, mn);
        r.append(" - ");
        escrever_decimal(&mut r, mx);
        r.append(" MHz (");
        escrever_decimal(&mut r, f.len() as u64);
        r.append(" níveis)");
        return r;
    }
    match (mhz_opt_exec(min_txt), mhz_opt_exec(max_txt)) {
        (Some(a), Some(b)) => {
            escrever_decimal(&mut r, a);
            r.append(" - ");
            escrever_decimal(&mut r, b);
            r.append(" MHz");
        },
        (None, Some(b)) => {
            r.append("até ");
            escrever_decimal(&mut r, b);
            r.append(" MHz");
        },
        (Some(a), None) => {
            r.append("a partir de ");
            escrever_decimal(&mut r, a);
            r.append(" MHz");
        },
        (None, None) => {
            r.append("não disponível");
        },
    }
    r
}

} // verus!
