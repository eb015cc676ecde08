use vstd::prelude::*;
use crate::texto::{
    aparar, aparar_espacos, aparar_fn, aparar_todos, chars_de, comeca, comeca_com, dividir,
    igual, igual_a, lemma_pedacos_nao_vazio, linhas, num_u32, num_u32_exec, opt_vista, palavras,
    pedacos, segundo_pedaco, segundo_pedaco_exec, separar_linhas, separar_palavras, string_de,
    strings_de, vistas, vistas_string,
};

verus! {

/// Uma interface de rede como o `ifconfig` a descreve.
#[derive(Clone, Debug)]
pub struct InterfaceInfo {
    pub nome: String,
    pub ip: Option<String>,
    pub mascara: Option<String>,
    pub flags: Vec<String>,
    pub mtu: Option<u32>,
}

/// What an `InterfaceInfo` holds, as sequences of chars.
pub struct InterfaceV {
    pub nome: Seq<char>,
    pub ip: Option<Seq<char>>,
    pub mascara: Option<Seq<char>>,
    pub flags: Seq<Seq<char>>,
    pub mtu: Option<u32>,
}

impl View for InterfaceInfo {
    type V = InterfaceV;

    open spec fn view(&self) -> InterfaceV {
        InterfaceV {
            nome: self.nome@,
            ip: opt_vista(self.ip),
            mascara: opt_vista(self.mascara),
            flags: vistas_string(self.flags@),
            mtu: self.mtu,
        }
    }
}

pub open spec fn vistas_if(v: Seq<InterfaceInfo>) -> Seq<InterfaceV> {
    v.map_values(|i: InterfaceInfo| i@)
}

/// A line that starts an interface: not empty and not indented.
pub open spec fn eh_cabecalho(l: Seq<char>) -> bool {
    l.len() > 0 && l[0] != ' ' && l[0] != '\t'
}

/// The flags between the first `'<'` and the next `'>'`, split at `','` and trimmed.
pub open spec fn flags_de(l: Seq<char>) -> Seq<Seq<char>> {
    let p = pedacos(l, igual('<'));
    if p.len() >= 2 {
        pedacos(pedacos(p[1], igual('>'))[0], igual(',')).map_values(aparar_fn())
    } else {
        Seq::empty()
    }
}

/// The first word after `"mtu "` (up to a second `"mtu "`), read as a `u32`.
pub open spec fn mtu_de(l: Seq<char>) -> Option<u32> {
    match segundo_pedaco(l, "mtu "@) {
        Some(t) => {
            let w = palavras(t);
            if w.len() > 0 {
                num_u32(w[0])
            } else {
                None
            }
        },
        None => None,
    }
}

/// The interface that a header line starts: its name is the trimmed text before the
/// first `':'`.
pub open spec fn cabecalho(l: Seq<char>) -> InterfaceV {
    InterfaceV {
        nome: aparar(pedacos(l, igual(':'))[0]),
        ip: None,
        mascara: None,
        flags: flags_de(l),
        mtu: mtu_de(l),
    }
}

/// The word after word `i`, if any.
pub open spec fn apos(p: Seq<Seq<char>>, i: int) -> Option<Seq<char>> {
    if i + 1 < p.len() {
        Some(p[i + 1])
    } else {
        None
    }
}

/// The first `n` words of an `inet` line: each `"inet"` sets the address and each
/// `"netmask"` the mask to the word after it.
pub open spec fn atribuir(f: InterfaceV, p: Seq<Seq<char>>, n: nat) -> InterfaceV
    decreases n,
{
    if n == 0 {
        f
    } else {
        let i = n - 1;
        let g = atribuir(f, p, (n - 1) as nat);
        let g2 = if p[i] == "inet"@ {
            InterfaceV { ip: apos(p, i), ..g }
        } else {
            g
        };
        if p[i] == "netmask"@ {
            InterfaceV { mascara: apos(p, i), ..g2 }
        } else {
            g2
        }
    }
}

/// An indented line of the current interface: when it starts (trimmed) with
/// `"inet "`, its words set address and mask.
pub open spec fn linha_inet(f: InterfaceV, l: Seq<char>) -> InterfaceV {
    let t = aparar(l);
    if comeca_com(t, "inet "@) {
        let p = palavras(t);
        atribuir(f, p, p.len())
    } else {
        f
    }
}

/// One line of `ifconfig` output: (finished interfaces, the current one).
pub open spec fn passo_ifconfig(e: (Seq<InterfaceV>, Option<InterfaceV>), l: Seq<char>) -> (
    Seq<InterfaceV>,
    Option<InterfaceV>,
) {
    if eh_cabecalho(l) {
        let feitas = match e.1 {
            Some(f) => e.0.push(f),
            None => e.0,
        };
        (feitas, Some(cabecalho(l)))
    } else {
        match e.1 {
            Some(f) => (e.0, Some(linha_inet(f, l))),
            None => e,
        }
    }
}

pub open spec fn ifconfig_linhas(ls: Seq<Seq<char>>) -> (Seq<InterfaceV>, Option<InterfaceV>)
    decreases ls.len(),
{
    if ls.len() == 0 {
        (Seq::empty(), None)
    } else {
        passo_ifconfig(ifconfig_linhas(ls.drop_last()), ls.last())
    }
}

pub open spec fn tem_nome() -> spec_fn(InterfaceV) -> bool {
    |f: InterfaceV| f.nome.len() > 0
}

/// The interfaces that `ifconfig` output describes, in order, those without name left out.
pub open spec fn ifconfig(s: Seq<char>) -> Seq<InterfaceV> {
    let e = ifconfig_linhas(linhas(s));
    let todas = match e.1 {
        Some(f) => e.0.push(f),
        None => e.0,
    };
    todas.filter(tem_nome())
}

fn flags_exec(l: &[char]) -> (r: Vec<String>)
    ensures
        vistas_string(r@) == flags_de(l@),
{
    let p = dividir(l, '<');
    if p.len() >= 2 {
        let q = dividir(p[1].as_slice(), '>');
        proof {
            lemma_pedacos_nao_vazio(p@[1]@, igual('>'));
        }
        let f = dividir(q[0].as_slice(), ',');
        let t = aparar_todos(&f);
        strings_de(&t)
    } else {
        Vec::new()
    }
}

fn mtu_exec(l: &[char]) -> (r: Option<u32>)
    ensures
        r == mtu_de(l@),
{
    let pat = chars_de("mtu ");
    match segundo_pedaco_exec(l, pat.as_slice()) {
        Some(t) => {
            let w = separar_palavras(t.as_slice());
            if w.len() > 0 {
                num_u32_exec(w[0].as_slice())
            } else {
                None
            }
        },
        None => None,
    }
}

fn cabecalho_exec(l: &[char]) -> (r: InterfaceInfo)
    ensures
        r@ == cabecalho(l@),
{
    let p = dividir(l, ':');
    proof {
        lemma_pedacos_nao_vazio(l@, igual(':'));
    }
    let nome = aparar_espacos(p[0].as_slice());
    InterfaceInfo {
        nome: string_de(nome.as_slice()),
        ip: None,
        mascara: None,
        flags: flags_exec(l),
        mtu: mtu_exec(l),
    }
}

fn palavra_apos(p: &Vec<Vec<char>>, i: usize) -> (r: Option<String>)
    ensures
        opt_vista(r) == apos(vistas(p@), i as int),
{
    if i < p.len() && i + 1 < p.len() {
        Some(string_de(p[i + 1].as_slice()))
    } else {
        None
    }
}

fn linha_inet_exec(f: &mut InterfaceInfo, l: &[char])
    ensures
        final(f)@ == linha_inet(old(f)@, l@),
{
    let t = aparar_espacos(l);
    let pre = chars_de("inet ");
    if comeca(t.as_slice(), pre.as_slice()) {
        let p = separar_palavras(t.as_slice());
        let ghost pv = vistas(p@);
        let ghost f0 = f@;
        let mut i: usize = 0;
        while i < p.len()
            invariant
                i <= p@.len(),
                pv == vistas(p@),
                f@ == atribuir(f0, pv, i as nat),
            decreases p@.len() - i,
        {
            if igual_a(p[i].as_slice(), "inet") {
                f.ip = palavra_apos(&p, i);
            }
            if igual_a(p[i].as_slice(), "netmask") {
                f.mascara = palavra_apos(&p, i);
            }
            i = i + 1;
        }
    }
}

/// Lê a saída do `ifconfig`: uma interface por linha de cabeçalho (nome antes de
/// `':'`, flags entre `'<'` e `'>'`, MTU depois de `"mtu "`), com IP e máscara das
/// linhas `inet` que a seguem; interfaces sem nome ficam de fora.
pub fn parsear_ifconfig(texto: &str) -> (r: Vec<InterfaceInfo>)
    ensures
        vistas_if(r@) == ifconfig(texto@),
{
    let cs = chars_de(texto);
    let ls = separar_linhas(cs.as_slice());
    let ghost lv = vistas(ls@);
    let mut interfaces: Vec<InterfaceInfo> = Vec::new();
    let mut atual: Option<InterfaceInfo> = None;
    let n = ls.len();
    let mut i: usize = 0;
    assert(lv.take(0) =~= Seq::<Seq<char>>::empty());
    assert(vistas_if(interfaces@) =~= Seq::<InterfaceV>::empty());
    assert(Seq::<InterfaceV>::empty().filter(tem_nome()) =~= Seq::<InterfaceV>::empty()) by {
        reveal(Seq::filter);
    }
    while i < n
        invariant
            n == ls@.len(),
            lv == vistas(ls@),
            lv == linhas(cs@),
            i <= n,
            vistas_if(interfaces@) == ifconfig_linhas(lv.take(i as int)).0.filter(tem_nome()),
            ifconfig_linhas(lv.take(i as int)).1 == match atual {
                Some(f) => Some(f@),
                None => None::<InterfaceV>,
            },
        decreases n - i,
    {
        assert(lv.take(i + 1).drop_last() =~= lv.take(i as int));
        assert(lv.take(i + 1).last() == ls@[i as int]@);
        let ghost e0 = ifconfig_linhas(lv.take(i as int)).0;
        let l = ls[i].as_slice();
        if l.len() > 0 && l[0] != ' ' && l[0] != '\t' {
            match atual {
                Some(f) => {
                    proof {
                        e0.lemma_filter_push(f@, tem_nome());
                    }
                    if !f.nome.as_str().is_empty() {
                        let ghost antes = vistas_if(interfaces@);
                        interfaces.push(f);
                        assert(vistas_if(interfaces@) =~= antes.push(f@));
                    }
                },
                None => {},
            }
            atual = Some(cabecalho_exec(l));
        } else {
            match atual {
                Some(mut f) => {
                    linha_inet_exec(&mut f, l);
                    atual = Some(f);
                },
                None => {
                    atual = None;
                },
            }
        }
        i = i + 1;
    }
    assert(lv.take(n as int) =~= lv);
    let ghost e0 = ifconfig_linhas(lv).0;
    match atual {
        Some(f) => {
            proof {
                e0.lemma_filter_push(f@, tem_nome());
            }
            if !f.nome.as_str().is_empty() {
                let ghost antes = vistas_if(interfaces@);
                interfaces.push(f);
                assert(vistas_if(interfaces@) =~= antes.push(f@));
            }
        },
        None => {},
    }
    interfaces
}

} // verus!

verus! {

/// An interface that `obter_ip_local` may pick: not loopback and with an address.
pub open spec fn elegivel(f: InterfaceV) -> bool {
    !f.flags.contains("LOOPBACK"@) && f.ip is Some
}

/// The address of the first non-loopback interface that has one.
pub open spec fn ip_local(fs: Seq<InterfaceV>) -> Option<Seq<char>>
    decreases fs.len(),
{
    if fs.len() == 0 {
        None
    } else if elegivel(fs[0]) {
        fs[0].ip
    } else {
        ip_local(fs.drop_first())
    }
}

/// Whether one of the flags is `flag`.
pub fn tem_flag(flags: &Vec<String>, flag: &str) -> (b: bool)
    ensures
        b == vistas_string(flags@).contains(flag@),
{
    let mut i: usize = 0;
    while i < flags.len()
        invariant
            i <= flags@.len(),
            forall|j: int| 0 <= j < i ==> flags@[j]@ != flag@,
        decreases flags@.len() - i,
    {
        let cs = chars_de(flags[i].as_str());
        if igual_a(cs.as_slice(), flag) {
            assert(vistas_string(flags@)[i as int] == flag@);
            return true;
        }
        i = i + 1;
    }
    assert(!vistas_string(flags@).contains(flag@)) by {
        if vistas_string(flags@).contains(flag@) {
            let j = choose|j: int| 0 <= j < flags@.len() && vistas_string(flags@)[j] == flag@;
            assert(flags@[j]@ == flag@);
        }
    }
    false
}

/// IP local: o endereço da primeira interface que não é loopback e tem endereço.
pub fn obter_ip_local(interfaces: &[InterfaceInfo]) -> (r: Option<String>)
    ensures
        opt_vista(r) == ip_local(vistas_if(interfaces@)),
{
    let ghost fs = vistas_if(interfaces@);
    let mut i: usize = 0;
    assert(fs.subrange(0, fs.len() as int) =~= fs);
    while i < interfaces.len()
        invariant
            i <= interfaces@.len(),
            fs == vistas_if(interfaces@),
            ip_local(fs) == ip_local(fs.subrange(i as int, fs.len() as int)),
        decreases interfaces@.len() - i,
    {
        let ghost t = fs.subrange(i as int, fs.len() as int);
        assert(t[0] == interfaces@[i as int]@);
        assert(t.drop_first() =~= fs.subrange(i + 1, fs.len() as int));
        let f = &interfaces[i];
        if !tem_flag(&f.flags, "LOOPBACK") {
            match &f.ip {
                Some(ip) => {
                    return Some(ip.clone());
                },
                None => {},
            }
        }
        i = i + 1;
    }
    None
}

} // verus!

verus! {

/// Every interface that `parsear_ifconfig` gives has a name.
pub proof fn lei_ifconfig_com_nome(s: Seq<char>, i: int)
    requires
        0 <= i < ifconfig(s).len(),
    ensures
        ifconfig(s)[i].nome.len() > 0,
{
    let e = ifconfig_linhas(linhas(s));
    let todas = match e.1 {
        Some(f) => e.0.push(f),
        None => e.0,
    };
    todas.lemma_filter_pred(tem_nome(), i);
}

/// The address `obter_ip_local` gives is that of an interface that is no loopback.
pub proof fn lei_ip_local_nao_loopback(fs: Seq<InterfaceV>)
    ensures
        ip_local(fs) matches Some(ip) ==> exists|i: int|
            0 <= i < fs.len() && fs[i].ip == Some(ip) && !fs[i].flags.contains("LOOPBACK"@),
    decreases fs.len(),
{
    if fs.len() > 0 && !elegivel(fs[0]) {
        lei_ip_local_nao_loopback(fs.drop_first());
        if ip_local(fs) is Some {
            let i = choose|i: int|
                0 <= i < fs.drop_first().len() && fs.drop_first()[i].ip == ip_local(fs)
                    && !fs.drop_first()[i].flags.contains("LOOPBACK"@);
            assert(fs[i + 1] == fs.drop_first()[i]);
        }
    }
}

} // verus!
