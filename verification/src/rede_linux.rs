use vstd::prelude::*;
use crate::cpu::{campo_num, campo_num_exec};
use crate::lista::{
    buscar, chaves_distintas, indice_chave, inserir, inserir_se_ausente, lei_inserir_buscar,
    lemma_inserir_distintas, tem_chave,
};
use crate::texto::{
    aparar, aparar_espacos, aparar_fim, aparar_por, chars_de, comeca, comeca_com, dividir, igual,
    igual_a, iguais, lemma_pedacos_nao_vazio, linhas, num_u32, num_u32_exec, opt_vista,
    opt_vista_str, palavras, pedacos, primeira_ocorrencia, separar_linhas, separar_palavras,
    string_de, vistas, vistas_string, Alvo,
};

verus! {

pub type Contadores = (u64, u64, u64, u64);

pub open spec fn vistas_netdev(v: Seq<(String, Contadores)>) -> Seq<(Seq<char>, Contadores)> {
    v.map_values(|e: (String, Contadores)| (e.0@, e.1))
}

pub open spec fn vistas_ips(v: Seq<(String, String)>) -> Seq<(Seq<char>, Seq<char>)> {
    v.map_values(|e: (String, String)| (e.0@, e.1@))
}

/// `(rx_bytes, tx_bytes, rx_packets, tx_packets)`: columns 0, 8, 1 and 9 of the data.
pub open spec fn contadores(dados: Seq<char>) -> Contadores {
    let c = palavras(dados);
    (campo_num(c, 0), campo_num(c, 8), campo_num(c, 1), campo_num(c, 9))
}

/// The lines after the two header lines.
pub open spec fn sem_cabecalho(ls: Seq<Seq<char>>) -> Seq<Seq<char>> {
    if ls.len() <= 2 {
        Seq::empty()
    } else {
        ls.subrange(2, ls.len() as int)
    }
}

/// One line of `/proc/net/dev`: trimmed, split at its first `':'` into the interface
/// name (trimmed) and its counters; a line without `':'` is skipped.
pub open spec fn passo_netdev(l: Seq<(Seq<char>, Contadores)>, linha: Seq<char>) -> Seq<(Seq<char>, Contadores)> {
    let t = aparar(linha);
    match primeira_ocorrencia(t, seq![':']) {
        Some(k) => inserir(l, aparar(t.subrange(0, k)), contadores(t.subrange(k + 1, t.len() as int))),
        None => l,
    }
}

pub open spec fn netdev_linhas(ls: Seq<Seq<char>>) -> Seq<(Seq<char>, Contadores)>
    decreases ls.len(),
{
    if ls.len() == 0 {
        Seq::empty()
    } else {
        passo_netdev(netdev_linhas(ls.drop_last()), ls.last())
    }
}

/// The counters of each interface in `/proc/net/dev`, the last line of a name winning.
pub open spec fn net_dev(s: Seq<char>) -> Seq<(Seq<char>, Contadores)> {
    netdev_linhas(sem_cabecalho(linhas(s)))
}

fn contadores_exec(dados: &[char]) -> (r: Contadores)
    ensures
        r == contadores(dados@),
{
    let c = separar_palavras(dados);
    (campo_num_exec(&c, 0), campo_num_exec(&c, 8), campo_num_exec(&c, 1), campo_num_exec(&c, 9))
}

/// Lê o texto de `/proc/net/dev`: para cada interface, `(rx_bytes, tx_bytes,
/// rx_packets, tx_packets)`; cada nome aparece uma vez, com a última linha dele.
pub fn parsear_net_dev(conteudo: &str) -> (r: Vec<(String, Contadores)>)
    ensures
        vistas_netdev(r@) == net_dev(conteudo@),
        chaves_distintas(vistas_netdev(r@)),
{
    let cs = chars_de(conteudo);
    let ls = separar_linhas(cs.as_slice());
    let ghost lv = vistas(ls@);
    let ghost corpo = sem_cabecalho(lv);
    let mut r: Vec<(String, Contadores)> = Vec::new();
    let n = ls.len();
    if n <= 2 {
        assert(vistas_netdev(r@) =~= Seq::<(Seq<char>, Contadores)>::empty());
        return r;
    }
    let dois_pontos = chars_de(":");
    assert(dois_pontos@ =~= seq![':']) by {
        reveal_strlit(":");
    }
    let mut i: usize = 2;
    assert(corpo.take(0) =~= Seq::<Seq<char>>::empty());
    assert(vistas_netdev(r@) =~= Seq::<(Seq<char>, Contadores)>::empty());
    while i < n
        invariant
            n == ls@.len(),
            n > 2,
            lv == vistas(ls@),
            corpo == lv.subrange(2, n as int),
            2 <= i <= n,
            dois_pontos@ == seq![':'],
            vistas_netdev(r@) == netdev_linhas(corpo.take(i - 2)),
            chaves_distintas(vistas_netdev(r@)),
        decreases n - i,
    {
        assert(corpo.take(i - 1).drop_last() =~= corpo.take(i - 2));
        assert(corpo.take(i - 1).last() == ls@[i as int]@);
        let t = aparar_espacos(ls[i].as_slice());
        let ghost antes = vistas_netdev(r@);
        match crate::texto::achar(t.as_slice(), dois_pontos.as_slice(), 0) {
            Some(k) => {
                let tn = t.len();
                assert(crate::texto::ocorre(t@, dois_pontos@, k as int));
                assert(k + 1 <= tn);
                let nome_c = aparar_espacos(crate::texto::copiar_ate(t.as_slice(), k).as_slice());
                let dados = crate::texto::copiar_de(t.as_slice(), k + 1);
                let v = contadores_exec(dados.as_slice());
                match indice_chave(&r, nome_c.as_slice()) {
                    Some(j) => {
                        let nome = string_de(nome_c.as_slice());
                        proof {
                            lemma_inserir_distintas(antes, nome_c@, v, j as int);
                        }
                        r.set(j, (nome, v));
                        assert(vistas_netdev(r@) =~= antes.update(j as int, (nome_c@, v)));
                    },
                    None => {
                        let nome = string_de(nome_c.as_slice());
                        assert(!tem_chave(antes, nome_c@)) by {
                            if tem_chave(antes, nome_c@) {
                                let m = choose|m: int| 0 <= m < antes.len() && antes[m].0 == nome_c@;
                                assert(r@[m].0@ != nome_c@);
                            }
                        }
                        r.push((nome, v));
                        assert(vistas_netdev(r@) =~= antes.push((nome_c@, v)));
                    },
                }
            },
            None => {},
        }
        i = i + 1;
    }
    assert(corpo.take(n - 2) =~= corpo);
    r
}

} // verus!

verus! {

/// A line that names an interface in `ip addr show`: it does not start with a space or tab.
pub open spec fn linha_de_interface(l: Seq<char>) -> bool {
    !(l.len() > 0 && (l[0] == ' ' || l[0] == '\t'))
}

/// The address of an `inet` line of the current interface, without its `/prefix`;
/// `None` for any other line or an empty address.
pub open spec fn ip_da_linha(l: Seq<char>) -> Option<Seq<char>> {
    let t = aparar(l);
    if comeca_com(t, "inet "@) && !comeca_com(t, "inet6"@) {
        let p = palavras(t);
        if p.len() >= 2 {
            let ip = pedacos(p[1], igual('/'))[0];
            if ip.len() > 0 {
                Some(ip)
            } else {
                None
            }
        } else {
            None
        }
    } else {
        None
    }
}

/// One line of `ip addr show`: (current interface, addresses so far).
pub open spec fn passo_ip(e: (Option<Seq<char>>, Seq<(Seq<char>, Seq<char>)>), l: Seq<char>) -> (
    Option<Seq<char>>,
    Seq<(Seq<char>, Seq<char>)>,
) {
    if linha_de_interface(l) {
        let p = palavras(l);
        if p.len() >= 2 {
            (Some(aparar_fim(p[1], Alvo::Letra(':'))), e.1)
        } else {
            e
        }
    } else {
        match e.0 {
            Some(nome) => match ip_da_linha(l) {
                Some(ip) => (e.0, inserir_se_ausente(e.1, nome, ip)),
                None => e,
            },
            None => e,
        }
    }
}

pub open spec fn ips_linhas(ls: Seq<Seq<char>>) -> (Option<Seq<char>>, Seq<(Seq<char>, Seq<char>)>)
    decreases ls.len(),
{
    if ls.len() == 0 {
        (None, Seq::empty())
    } else {
        passo_ip(ips_linhas(ls.drop_last()), ls.last())
    }
}

/// The first IPv4 address of each interface in the output of `ip addr show`.
pub open spec fn ips(s: Seq<char>) -> Seq<(Seq<char>, Seq<char>)> {
    ips_linhas(linhas(s)).1
}

fn ip_da_linha_exec(l: &[char]) -> (r: Option<Vec<char>>)
    ensures
        match r {
            Some(v) => ip_da_linha(l@) == Some(v@),
            None => ip_da_linha(l@) is None,
        },
{
    let t = aparar_espacos(l);
    let inet = chars_de("inet ");
    let inet6 = chars_de("inet6");
    if comeca(t.as_slice(), inet.as_slice()) && !comeca(t.as_slice(), inet6.as_slice()) {
        let p = separar_palavras(t.as_slice());
        if p.len() >= 2 {
            let q = dividir(p[1].as_slice(), '/');
            proof {
                lemma_pedacos_nao_vazio(p@[1]@, igual('/'));
            }
            if q[0].len() > 0 {
                Some(crate::texto::copiar(q[0].as_slice()))
            } else {
                None
            }
        } else {
            None
        }
    } else {
        None
    }
}

/// Lê a saída de `ip addr show`: o primeiro endereço IPv4 de cada interface.
pub fn parsear_ips(texto: &str) -> (r: Vec<(String, String)>)
    ensures
        vistas_ips(r@) == ips(texto@),
        chaves_distintas(vistas_ips(r@)),
{
    let cs = chars_de(texto);
    let ls = separar_linhas(cs.as_slice());
    let ghost lv = vistas(ls@);
    let mut r: Vec<(String, String)> = Vec::new();
    let mut atual: Option<Vec<char>> = None;
    let n = ls.len();
    let mut i: usize = 0;
    assert(lv.take(0) =~= Seq::<Seq<char>>::empty());
    assert(vistas_ips(r@) =~= Seq::<(Seq<char>, Seq<char>)>::empty());
    while i < n
        invariant
            n == ls@.len(),
            lv == vistas(ls@),
            lv == linhas(cs@),
            i <= n,
            ips_linhas(lv.take(i as int)) == (match atual {
                Some(v) => Some(v@),
                None => None::<Seq<char>>,
            }, vistas_ips(r@)),
            chaves_distintas(vistas_ips(r@)),
        decreases n - i,
    {
        assert(lv.take(i + 1).drop_last() =~= lv.take(i as int));
        assert(lv.take(i + 1).last() == ls@[i as int]@);
        let l = ls[i].as_slice();
        if !(l.len() > 0 && (l[0] == ' ' || l[0] == '\t')) {
            let p = separar_palavras(l);
            if p.len() >= 2 {
                atual = Some(aparar_por(p[1].as_slice(), &Alvo::Letra(':'), false, true));
            }
        } else {
            match &atual {
                Some(nome) => {
                    match ip_da_linha_exec(l) {
                        Some(ip) => {
                            let ghost antes = vistas_ips(r@);
                            match indice_chave(&r, nome.as_slice()) {
                                Some(j) => {
                                    assert(antes[j as int].0 == nome@);
                                    assert(tem_chave(antes, nome@));
                                },
                                None => {
                                    assert(!tem_chave(antes, nome@)) by {
                                        if tem_chave(antes, nome@) {
                                            let m = choose|m: int|
                                                0 <= m < antes.len() && antes[m].0 == nome@;
                                            assert(r@[m].0@ != nome@);
                                        }
                                    }
                                    let a = string_de(nome.as_slice());
                                    let b = string_de(ip.as_slice());
                                    r.push((a, b));
                                    assert(vistas_ips(r@) =~= antes.push((nome@, ip@)));
                                },
                            }
                        },
                        None => {},
                    }
                },
                None => {},
            }
        }
        i = i + 1;
    }
    assert(lv.take(n as int) =~= lv);
    r
}

/// MTU and flags of an interface from its files under `/sys/class/net/<nome>/`
/// (`None` when a file is missing): the MTU is the trimmed `mtu` as a `u32`; the
/// flags are `"UP"` when `operstate` reads `up` and `"LOOPBACK"` when `type` reads
/// `772`, in that order.
pub open spec fn flags_e_mtu_spec(
    mtu: Option<Seq<char>>,
    operstate: Option<Seq<char>>,
    tipo: Option<Seq<char>>,
) -> (Seq<Seq<char>>, Option<u32>) {
    let m = match mtu {
        Some(t) => num_u32(aparar(t)),
        None => None,
    };
    let f1: Seq<Seq<char>> = match operstate {
        Some(t) => if aparar(t) == "up"@ {
            seq!["UP"@]
        } else {
            Seq::empty()
        },
        None => Seq::empty(),
    };
    let f2 = match tipo {
        Some(t) => if aparar(t) == "772"@ {
            f1.push("LOOPBACK"@)
        } else {
            f1
        },
        None => f1,
    };
    (f2, m)
}

fn aparado_igual(t: Option<&str>, lit: &str) -> (b: bool)
    ensures
        b == match t {
            Some(x) => aparar(x@) == lit@,
            None => false,
        },
{
    match t {
        Some(x) => {
            let cs = chars_de(x);
            let a = aparar_espacos(cs.as_slice());
            igual_a(a.as_slice(), lit)
        },
        None => false,
    }
}

/// Lê MTU e flags a partir do conteúdo de `mtu`, `operstate` e `type`.
pub fn flags_e_mtu(mtu: Option<&str>, operstate: Option<&str>, tipo: Option<&str>) -> (r: (
    Vec<String>,
    Option<u32>,
))
    ensures
        (vistas_string(r.0@), r.1) == flags_e_mtu_spec(
            opt_vista_str(mtu),
            opt_vista_str(operstate),
            opt_vista_str(tipo),
        ),
{
    let m = match mtu {
        Some(t) => {
            let cs = chars_de(t);
            let a = aparar_espacos(cs.as_slice());
            num_u32_exec(a.as_slice())
        },
        None => None,
    };
    let mut flags: Vec<String> = Vec::new();
    if aparado_igual(operstate, "up") {
        flags.push(String::from_str("UP"));
        assert(vistas_string(flags@) =~= seq!["UP"@]);
    }
    let ghost f1 = vistas_string(flags@);
    if aparado_igual(tipo, "772") {
        flags.push(String::from_str("LOOPBACK"));
        assert(vistas_string(flags@) =~= f1.push("LOOPBACK"@));
    }
    assert(vistas_string(flags@) =~= flags_e_mtu_spec(opt_vista_str(mtu), opt_vista_str(operstate), opt_vista_str(tipo)).0);
    (flags, m)
}

} // verus!

verus! {

/// Uma interface lida de `/proc/net/dev`, com endereço, flags, MTU e contadores.
#[derive(Clone, Debug)]
pub struct InterfaceLinux {
    pub nome: String,
    pub ip: Option<String>,
    pub mascara: Option<String>,
    pub flags: Vec<String>,
    pub mtu: Option<u32>,
    pub rx_bytes: u64,
    pub tx_bytes: u64,
    pub rx_packets: u64,
    pub tx_packets: u64,
}

/// What an `InterfaceLinux` holds, as sequences of chars.
pub struct InterfaceLinuxV {
    pub nome: Seq<char>,
    pub ip: Option<Seq<char>>,
    pub mascara: Option<Seq<char>>,
    pub flags: Seq<Seq<char>>,
    pub mtu: Option<u32>,
    pub rx_bytes: u64,
    pub tx_bytes: u64,
    pub rx_packets: u64,
    pub tx_packets: u64,
}

impl View for InterfaceLinux {
    type V = InterfaceLinuxV;

    open spec fn view(&self) -> InterfaceLinuxV {
        InterfaceLinuxV {
            nome: self.nome@,
            ip: opt_vista(self.ip),
            mascara: opt_vista(self.mascara),
            flags: vistas_string(self.flags@),
            mtu: self.mtu,
            rx_bytes: self.rx_bytes,
            tx_bytes: self.tx_bytes,
            rx_packets: self.rx_packets,
            tx_packets: self.tx_packets,
        }
    }
}

pub open spec fn vistas_linux(v: Seq<InterfaceLinux>) -> Seq<InterfaceLinuxV> {
    v.map_values(|i: InterfaceLinux| i@)
}

pub open spec fn vistas_atributos(v: Seq<(Vec<String>, Option<u32>)>) -> Seq<(Seq<Seq<char>>, Option<u32>)> {
    v.map_values(|a: (Vec<String>, Option<u32>)| (vistas_string(a.0@), a.1))
}

/// One interface: counters from `/proc/net/dev`, its address from `ips` (none
/// without entry), flags and MTU from its attributes; no mask.
pub open spec fn montar(
    e: (Seq<char>, Contadores),
    ips: Seq<(Seq<char>, Seq<char>)>,
    a: (Seq<Seq<char>>, Option<u32>),
) -> InterfaceLinuxV {
    InterfaceLinuxV {
        nome: e.0,
        ip: buscar(ips, e.0),
        mascara: None,
        flags: a.0,
        mtu: a.1,
        rx_bytes: e.1.0,
        tx_bytes: e.1.1,
        rx_packets: e.1.2,
        tx_packets: e.1.3,
    }
}

pub open spec fn tem_nome_linux() -> spec_fn(InterfaceLinuxV) -> bool {
    |f: InterfaceLinuxV| f.nome.len() > 0
}

/// The interfaces of `/proc/net/dev`, in its order, those without name left out.
pub open spec fn interfaces_linux(
    nd: Seq<(Seq<char>, Contadores)>,
    ips: Seq<(Seq<char>, Seq<char>)>,
    at: Seq<(Seq<Seq<char>>, Option<u32>)>,
) -> Seq<InterfaceLinuxV> {
    Seq::new(nd.len(), |i: int| montar(nd[i], ips, at[i])).filter(tem_nome_linux())
}

fn buscar_exec(l: &[(String, String)], k: &[char]) -> (r: Option<String>)
    ensures
        opt_vista(r) == buscar(vistas_ips(l@), k@),
{
    let ghost lv = vistas_ips(l@);
    let mut i: usize = 0;
    assert(lv.subrange(0, lv.len() as int) =~= lv);
    while i < l.len()
        invariant
            i <= l@.len(),
            lv == vistas_ips(l@),
            buscar(lv, k@) == buscar(lv.subrange(i as int, lv.len() as int), k@),
        decreases l@.len() - i,
    {
        assert(lv.subrange(i as int, lv.len() as int)[0] == lv[i as int]);
        assert(lv.subrange(i as int, lv.len() as int).drop_first() =~= lv.subrange(
            i + 1,
            lv.len() as int,
        ));
        let cs = chars_de(l[i].0.as_str());
        if iguais(cs.as_slice(), k) {
            return Some(l[i].1.clone());
        }
        i = i + 1;
    }
    assert(lv.subrange(i as int, lv.len() as int) =~= Seq::<(Seq<char>, Seq<char>)>::empty());
    None
}

fn copiar_strings(v: &Vec<String>) -> (r: Vec<String>)
    ensures
        vistas_string(r@) == vistas_string(v@),
{
    let mut r: Vec<String> = Vec::new();
    let mut i: usize = 0;
    while i < v.len()
        invariant
            i <= v@.len(),
            vistas_string(r@) =~= vistas_string(v@).take(i as int),
        decreases v@.len() - i,
    {
        let s = v[i].clone();
        let ghost antes = vistas_string(r@);
        r.push(s);
        assert(vistas_string(r@) =~= antes.push(s@));
        assert(vistas_string(v@).take(i + 1) =~= vistas_string(v@).take(i as int).push(v@[i as int]@));
        i = i + 1;
    }
    assert(vistas_string(v@).take(v@.len() as int) =~= vistas_string(v@));
    r
}

/// Junta as interfaces de `/proc/net/dev` (`net_dev`) com os endereços de
/// `ip addr show` (`ips`) e com flags e MTU de cada uma (`atributos[i]` é de
/// `net_dev[i]`): IP, flags, MTU e contadores por interface; nomes vazios ficam de fora.
pub fn ler_interfaces_linux(
    net_dev: &[(String, Contadores)],
    ips: &[(String, String)],
    atributos: &[(Vec<String>, Option<u32>)],
) -> (r: Vec<InterfaceLinux>)
    requires
        atributos@.len() == net_dev@.len(),
    ensures
        vistas_linux(r@) == interfaces_linux(
            vistas_netdev(net_dev@),
            vistas_ips(ips@),
            vistas_atributos(atributos@),
        ),
{
    let ghost nd = vistas_netdev(net_dev@);
    let ghost ipv = vistas_ips(ips@);
    let ghost at = vistas_atributos(atributos@);
    let ghost todas = Seq::new(nd.len(), |i: int| montar(nd[i], ipv, at[i]));
    let mut r: Vec<InterfaceLinux> = Vec::new();
    let mut i: usize = 0;
    assert(todas.take(0) =~= Seq::<InterfaceLinuxV>::empty());
    assert(Seq::<InterfaceLinuxV>::empty().filter(tem_nome_linux()) =~= Seq::<InterfaceLinuxV>::empty()) by {
        reveal(Seq::filter);
    }
    assert(vistas_linux(r@) =~= Seq::<InterfaceLinuxV>::empty());
    while i < net_dev.len()
        invariant
            i <= net_dev@.len(),
            atributos@.len() == net_dev@.len(),
            nd == vistas_netdev(net_dev@),
            ipv == vistas_ips(ips@),
            at == vistas_atributos(atributos@),
            todas == Seq::new(nd.len(), |i: int| montar(nd[i], ipv, at[i])),
            vistas_linux(r@) == todas.take(i as int).filter(tem_nome_linux()),
        decreases net_dev@.len() - i,
    {
        proof {
            assert(todas.take(i + 1) =~= todas.take(i as int).push(todas[i as int]));
            todas.take(i as int).lemma_filter_push(todas[i as int], tem_nome_linux());
        }
        let (nome, c) = (&net_dev[i].0, net_dev[i].1);
        if !nome.as_str().is_empty() {
            let cs = chars_de(nome.as_str());
            let ip = buscar_exec(ips, cs.as_slice());
            let f = InterfaceLinux {
                nome: nome.clone(),
                ip: ip,
                mascara: None,
                flags: copiar_strings(&atributos[i].0),
                mtu: atributos[i].1,
                rx_bytes: c.0,
                tx_bytes: c.1,
                rx_packets: c.2,
                tx_packets: c.3,
            };
            let ghost antes = vistas_linux(r@);
            r.push(f);
            assert(f@ == todas[i as int]);
            assert(vistas_linux(r@) =~= antes.push(f@));
        }
        i = i + 1;
    }
    assert(todas.take(net_dev@.len() as int) =~= todas);
    r
}

} // verus!

verus! {

/// Every interface listed is an entry of `/proc/net/dev` with a name, carrying that
/// entry's name and counters as read (bytes received, bytes sent, packets received,
/// packets sent), its address from `ips`, no mask, and the flags and MTU read for it.
pub proof fn lei_interface_vem_do_net_dev(
    nd: Seq<(Seq<char>, Contadores)>,
    ips: Seq<(Seq<char>, Seq<char>)>,
    at: Seq<(Seq<Seq<char>>, Option<u32>)>,
    k: int,
)
    requires
        at.len() == nd.len(),
        0 <= k < interfaces_linux(nd, ips, at).len(),
    ensures
        exists|i: int|
            #![trigger nd[i]]
            0 <= i < nd.len() && ({
                let f = interfaces_linux(nd, ips, at)[k];
                &&& f.nome == nd[i].0
                &&& f.nome.len() > 0
                &&& f.rx_bytes == nd[i].1.0
                &&& f.tx_bytes == nd[i].1.1
                &&& f.rx_packets == nd[i].1.2
                &&& f.tx_packets == nd[i].1.3
                &&& f.ip == buscar(ips, nd[i].0)
                &&& f.mascara is None
                &&& f.flags == at[i].0
                &&& f.mtu == at[i].1
            }),
{
    let todas = Seq::new(nd.len(), |i: int| montar(nd[i], ips, at[i]));
    let l = interfaces_linux(nd, ips, at);
    let f = l[k];
    todas.lemma_filter_pred(tem_nome_linux(), k);
    assert(l.contains(f));
    todas.lemma_filter_contains_rev(tem_nome_linux(), f);
    let i = choose|i: int| 0 <= i < todas.len() && todas[i] == f;
    assert(nd[i] == nd[i]);
}

/// Every entry of `/proc/net/dev` with a name is listed, with its counters as read.
pub proof fn lei_net_dev_listado(
    nd: Seq<(Seq<char>, Contadores)>,
    ips: Seq<(Seq<char>, Seq<char>)>,
    at: Seq<(Seq<Seq<char>>, Option<u32>)>,
    i: int,
)
    requires
        at.len() == nd.len(),
        0 <= i < nd.len(),
        nd[i].0.len() > 0,
    ensures
        exists|k: int|
            #![trigger interfaces_linux(nd, ips, at)[k]]
            0 <= k < interfaces_linux(nd, ips, at).len() && ({
                let f = interfaces_linux(nd, ips, at)[k];
                &&& f.nome == nd[i].0
                &&& f.rx_bytes == nd[i].1.0
                &&& f.tx_bytes == nd[i].1.1
                &&& f.rx_packets == nd[i].1.2
                &&& f.tx_packets == nd[i].1.3
                &&& f.flags == at[i].0
                &&& f.mtu == at[i].1
            }),
{
    let todas = Seq::new(nd.len(), |i: int| montar(nd[i], ips, at[i]));
    let l = interfaces_linux(nd, ips, at);
    assert(tem_nome_linux()(todas[i]));
    todas.lemma_filter_contains(tem_nome_linux(), i);
    assert(l.contains(todas[i]));
    let k = choose|k: int| 0 <= k < l.len() && l[k] == todas[i];
    assert(l[k] == todas[i]);
}

proof fn filtro_de_todos(v: Seq<InterfaceLinuxV>, j: int)
    requires
        0 <= j <= v.len(),
        forall|k: int| 0 <= k < v.len() ==> #[trigger] v[k].nome.len() > 0,
    ensures
        v.take(j).filter(tem_nome_linux()) == v.take(j),
    decreases j,
{
    if j == 0 {
        assert(v.take(0) =~= Seq::<InterfaceLinuxV>::empty());
        assert(Seq::<InterfaceLinuxV>::empty().filter(tem_nome_linux()) =~= Seq::<InterfaceLinuxV>::empty()) by {
            reveal(Seq::filter);
        }
    } else {
        filtro_de_todos(v, j - 1);
        assert(v.take(j) =~= v.take(j - 1).push(v[j - 1]));
        v.take(j - 1).lemma_filter_push(v[j - 1], tem_nome_linux());
    }
}

/// When every entry of `/proc/net/dev` has a name, the list has one interface per
/// entry, in the same order, each with that entry's name and counters.
pub proof fn lei_interfaces_em_ordem(
    nd: Seq<(Seq<char>, Contadores)>,
    ips: Seq<(Seq<char>, Seq<char>)>,
    at: Seq<(Seq<Seq<char>>, Option<u32>)>,
)
    requires
        at.len() == nd.len(),
        forall|i: int| 0 <= i < nd.len() ==> #[trigger] nd[i].0.len() > 0,
    ensures
        interfaces_linux(nd, ips, at).len() == nd.len(),
        forall|k: int|
            #![trigger interfaces_linux(nd, ips, at)[k]]
            0 <= k < nd.len() ==> {
                let f = interfaces_linux(nd, ips, at)[k];
                &&& f.nome == nd[k].0
                &&& f.rx_bytes == nd[k].1.0
                &&& f.tx_bytes == nd[k].1.1
                &&& f.rx_packets == nd[k].1.2
                &&& f.tx_packets == nd[k].1.3
                &&& f.ip == buscar(ips, nd[k].0)
                &&& f.flags == at[k].0
                &&& f.mtu == at[k].1
            },
{
    let todas = Seq::new(nd.len(), |i: int| montar(nd[i], ips, at[i]));
    assert forall|k: int| 0 <= k < todas.len() implies #[trigger] todas[k].nome.len() > 0 by {
        assert(nd[k].0.len() > 0);
    }
    filtro_de_todos(todas, todas.len() as int);
    assert(todas.take(todas.len() as int) =~= todas);
}

/// Each line of `/proc/net/dev` with a name leaves that name with its counters; the
/// other names keep theirs.
pub proof fn lei_net_dev_linha(l: Seq<(Seq<char>, Contadores)>, linha: Seq<char>, outra: Seq<char>)
    requires
        chaves_distintas(l),
        primeira_ocorrencia(aparar(linha), seq![':']) is Some,
    ensures
        ({
            let t = aparar(linha);
            let k = primeira_ocorrencia(t, seq![':'])->0;
            let nome = aparar(t.subrange(0, k));
            &&& chaves_distintas(passo_netdev(l, linha))
            &&& buscar(passo_netdev(l, linha), nome) == Some(
                contadores(t.subrange(k + 1, t.len() as int)),
            )
            &&& outra != nome ==> buscar(passo_netdev(l, linha), outra) == buscar(l, outra)
        }),
{
    let t = aparar(linha);
    let k = primeira_ocorrencia(t, seq![':'])->0;
    lei_inserir_buscar(
        l,
        aparar(t.subrange(0, k)),
        contadores(t.subrange(k + 1, t.len() as int)),
        outra,
    );
}

} // verus!
