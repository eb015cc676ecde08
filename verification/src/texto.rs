use vstd::prelude::*;

verus! {

/// Trusted: `String::push` (std) appends the given char to the end of the string, so
/// the chars it holds are the old ones followed by `ch`.
pub assume_specification[ String::push ](s: &mut String, ch: char)
    ensures
        final(s)@ == old(s)@.push(ch),
;

/// Os caracteres de `s`, em ordem.
pub fn chars_de(s: &str) -> (v: Vec<char>)
    ensures
        v@ == s@,
{
    let mut v: Vec<char> = Vec::new();
    for c in it: s.chars()
        invariant
            v@ == it.seq().take(it.index()),
    {
        v.push(c);
    }
    assert(v@ =~= s@);
    v
}

/// Uma `String` com exatamente os caracteres de `v`.
pub fn string_de(v: &[char]) -> (s: String)
    ensures
        s@ == v@,
{
    let mut s = String::new();
    let mut i: usize = 0;
    while i < v.len()
        invariant
            i <= v@.len(),
            s@ == v@.take(i as int),
        decreases v@.len() - i,
    {
        s.push(v[i]);
        i = i + 1;
        assert(s@ =~= v@.take(i as int));
    }
    assert(v@.take(v@.len() as int) =~= v@);
    s
}

} // verus!

verus! {

/// `char::is_whitespace`: the Unicode `White_Space` code points.
pub open spec fn eh_espaco(c: char) -> bool {
    let n = c as u32;
    ||| n == 0x20
    ||| (0x09 <= n && n <= 0x0d)
    ||| n == 0x85
    ||| n == 0xa0
    ||| n == 0x1680
    ||| (0x2000 <= n && n <= 0x200a)
    ||| n == 0x2028
    ||| n == 0x2029
    ||| n == 0x202f
    ||| n == 0x205f
    ||| n == 0x3000
}

pub open spec fn espaco() -> spec_fn(char) -> bool {
    |c: char| eh_espaco(c)
}

pub open spec fn igual(x: char) -> spec_fn(char) -> bool {
    |c: char| c == x
}

pub fn e_espaco(c: char) -> (b: bool)
    ensures
        b == eh_espaco(c),
{
    let n = c as u32;
    n == 0x20 || (0x09 <= n && n <= 0x0d) || n == 0x85 || n == 0xa0 || n == 0x1680 || (0x2000
        <= n && n <= 0x200a) || n == 0x2028 || n == 0x2029 || n == 0x202f || n == 0x205f || n
        == 0x3000
}

/// `str::split` by a char predicate: every separator starts a new piece, every other
/// char extends the last piece; empty pieces are kept.
pub open spec fn pedacos(s: Seq<char>, sep: spec_fn(char) -> bool) -> Seq<Seq<char>>
    decreases s.len(),
{
    if s.len() == 0 {
        seq![Seq::empty()]
    } else {
        let r = pedacos(s.drop_last(), sep);
        if sep(s.last()) {
            r.push(Seq::empty())
        } else {
            r.update(r.len() - 1, r.last().push(s.last()))
        }
    }
}

pub proof fn lemma_pedacos_nao_vazio(s: Seq<char>, sep: spec_fn(char) -> bool)
    ensures
        pedacos(s, sep).len() >= 1,
    decreases s.len(),
{
    if s.len() > 0 {
        lemma_pedacos_nao_vazio(s.drop_last(), sep);
    }
}

/// The views of a sequence of char vectors.
pub open spec fn vistas(v: Seq<Vec<char>>) -> Seq<Seq<char>> {
    v.map_values(|x: Vec<char>| x@)
}

/// The views of a sequence of strings.
pub open spec fn vistas_string(v: Seq<String>) -> Seq<Seq<char>> {
    v.map_values(|x: String| x@)
}

/// The view of an optional string.
pub open spec fn opt_vista(o: Option<String>) -> Option<Seq<char>> {
    match o {
        Some(s) => Some(s@),
        None => None,
    }
}

/// The view of an optional string slice.
pub open spec fn opt_vista_str(o: Option<&str>) -> Option<Seq<char>> {
    match o {
        Some(s) => Some(s@),
        None => None,
    }
}

/// The views of a sequence of string slices.
pub open spec fn vistas_str(v: Seq<&str>) -> Seq<Seq<char>> {
    v.map_values(|x: &str| x@)
}

/// `str::split_whitespace`: the non-empty pieces between whitespace.
pub open spec fn palavras(s: Seq<char>) -> Seq<Seq<char>> {
    pedacos(s, espaco()).filter(nao_vazia())
}

pub open spec fn nao_vazia() -> spec_fn(Seq<char>) -> bool {
    |w: Seq<char>| w.len() > 0
}

/// `str::lines`: pieces ended by `'\n'`, each ended piece without one trailing `'\r'`;
/// a last piece that is empty is no line.
pub open spec fn linhas(s: Seq<char>) -> Seq<Seq<char>> {
    let p = pedacos(s, igual('\n'));
    let feitas = p.drop_last().map_values(sem_cr_fn());
    if p.last().len() == 0 {
        feitas
    } else {
        feitas.push(p.last())
    }
}

pub open spec fn sem_cr_fn() -> spec_fn(Seq<char>) -> Seq<char> {
    |l: Seq<char>| sem_cr(l)
}

pub open spec fn sem_cr(l: Seq<char>) -> Seq<char> {
    if l.len() > 0 && l.last() == '\r' {
        l.drop_last()
    } else {
        l
    }
}

/// `str::split` by one char.
pub fn dividir(s: &[char], sep: char) -> (r: Vec<Vec<char>>)
    ensures
        vistas(r@) == pedacos(s@, igual(sep)),
{
    let mut res: Vec<Vec<char>> = Vec::new();
    let mut cur: Vec<char> = Vec::new();
    let mut i: usize = 0;
    assert(s@.take(0) =~= Seq::<char>::empty());
    assert(vistas(res@).push(cur@) =~= pedacos(s@.take(0), igual(sep)));
    while i < s.len()
        invariant
            i <= s@.len(),
            vistas(res@).push(cur@) == pedacos(s@.take(i as int), igual(sep)),
        decreases s@.len() - i,
    {
        let c = s[i];
        let ghost antes = vistas(res@).push(cur@);
        assert(s@.take(i + 1).drop_last() =~= s@.take(i as int));
        if c == sep {
            res.push(cur);
            cur = Vec::new();
            assert(vistas(res@).push(cur@) =~= antes.push(Seq::empty()));
        } else {
            cur.push(c);
            assert(vistas(res@).push(cur@) =~= antes.update(antes.len() - 1, antes.last().push(c)));
        }
        i = i + 1;
    }
    assert(s@.take(s@.len() as int) =~= s@);
    res.push(cur);
    res
}

/// `str::split_whitespace`.
pub fn separar_palavras(s: &[char]) -> (r: Vec<Vec<char>>)
    ensures
        vistas(r@) == palavras(s@),
{
    let mut res: Vec<Vec<char>> = Vec::new();
    let mut cur: Vec<char> = Vec::new();
    let mut i: usize = 0;
    assert(s@.take(0) =~= Seq::<char>::empty());
    assert(pedacos(s@.take(0), espaco()) =~= seq![Seq::<char>::empty()]);
    assert(Seq::<Seq<char>>::empty().filter(nao_vazia()) =~= Seq::<Seq<char>>::empty()) by {
        reveal(Seq::filter);
    }
    while i < s.len()
        invariant
            i <= s@.len(),
            pedacos(s@.take(i as int), espaco()).len() >= 1,
            vistas(res@) == pedacos(s@.take(i as int), espaco()).drop_last().filter(nao_vazia()),
            cur@ == pedacos(s@.take(i as int), espaco()).last(),
        decreases s@.len() - i,
    {
        let c = s[i];
        let ghost p = pedacos(s@.take(i as int), espaco());
        assert(s@.take(i + 1).drop_last() =~= s@.take(i as int));
        if e_espaco(c) {
            assert(pedacos(s@.take(i + 1), espaco()) == p.push(Seq::empty()));
            assert(p.push(Seq::empty()).drop_last() =~= p);
            proof {
                let q = p.drop_last();
                assert(p =~= q.push(p.last()));
                q.lemma_filter_push(p.last(), nao_vazia());
            }
            if cur.len() > 0 {
                res.push(cur);
                assert(vistas(res@) =~= p.drop_last().filter(nao_vazia()).push(p.last()));
            }
            cur = Vec::new();
        } else {
            cur.push(c);
            assert(pedacos(s@.take(i + 1), espaco()) == p.update(p.len() - 1, p.last().push(c)));
            assert(p.update(p.len() - 1, p.last().push(c)).drop_last() =~= p.drop_last());
        }
        i = i + 1;
    }
    assert(s@.take(s@.len() as int) =~= s@);
    let ghost p = pedacos(s@, espaco());
    proof {
        let q = p.drop_last();
        assert(p =~= q.push(p.last()));
        q.lemma_filter_push(p.last(), nao_vazia());
    }
    if cur.len() > 0 {
        res.push(cur);
        assert(vistas(res@) =~= p.drop_last().filter(nao_vazia()).push(p.last()));
    }
    res
}

} // verus!

verus! {

pub fn tirar_cr(l: Vec<char>) -> (r: Vec<char>)
    ensures
        r@ == sem_cr(l@),
{
    let ghost l0 = l@;
    let mut l = l;
    if l.len() > 0 && l[l.len() - 1] == '\r' {
        l.pop();
        assert(l@ =~= l0.drop_last());
    }
    l
}

/// A fresh vector with the chars of `v`.
pub fn copiar(v: &[char]) -> (r: Vec<char>)
    ensures
        r@ == v@,
{
    let mut r: Vec<char> = Vec::new();
    let mut k: usize = 0;
    while k < v.len()
        invariant
            k <= v@.len(),
            r@ =~= v@.take(k as int),
        decreases v@.len() - k,
    {
        r.push(v[k]);
        k = k + 1;
    }
    assert(v@.take(v@.len() as int) =~= v@);
    r
}

/// The chars of `v` from `inicio` on.
pub fn copiar_de(v: &[char], inicio: usize) -> (r: Vec<char>)
    requires
        inicio <= v@.len(),
    ensures
        r@ == v@.subrange(inicio as int, v@.len() as int),
{
    let mut r: Vec<char> = Vec::new();
    let mut k: usize = inicio;
    while k < v.len()
        invariant
            inicio <= k <= v@.len(),
            r@ =~= v@.subrange(inicio as int, k as int),
        decreases v@.len() - k,
    {
        r.push(v[k]);
        k = k + 1;
    }
    r
}

/// The first `fim` chars of `v`.
pub fn copiar_ate(v: &[char], fim: usize) -> (r: Vec<char>)
    requires
        fim <= v@.len(),
    ensures
        r@ == v@.subrange(0, fim as int),
{
    let mut r: Vec<char> = Vec::new();
    let mut k: usize = 0;
    while k < fim
        invariant
            k <= fim <= v@.len(),
            r@ =~= v@.subrange(0, k as int),
        decreases fim - k,
    {
        r.push(v[k]);
        k = k + 1;
    }
    r
}

/// `str::lines`.
pub fn separar_linhas(s: &[char]) -> (r: Vec<Vec<char>>)
    ensures
        vistas(r@) == linhas(s@),
{
    let mut p = dividir(s, '\n');
    let ghost pv = pedacos(s@, igual('\n'));
    proof {
        lemma_pedacos_nao_vazio(s@, igual('\n'));
    }
    let ultimo = p.pop().unwrap();
    assert(vistas(p@) =~= pv.drop_last());
    let mut res: Vec<Vec<char>> = Vec::new();
    let mut i: usize = 0;
    let n = p.len();
    while i < n
        invariant
            n == p@.len(),
            i <= n,
            vistas(p@) == pv.drop_last(),
            vistas(res@) =~= pv.drop_last().take(i as int).map_values(sem_cr_fn()),
        decreases n - i,
    {
        let l = copiar(p[i].as_slice());
        let t = tirar_cr(l);
        let ghost q = pv.drop_last();
        let ghost antes = vistas(res@);
        proof {
            assert(p@[i as int]@ == vistas(p@)[i as int]);
            assert(t@ == sem_cr(q[i as int]));
            assert(q.take(i + 1) =~= q.take(i as int).push(q[i as int]));
            assert(q.take(i + 1).map_values(sem_cr_fn()) =~= q.take(i as int).map_values(
                sem_cr_fn(),
            ).push(sem_cr(q[i as int])));
        }
        res.push(t);
        assert(vistas(res@) =~= antes.push(t@));
        i = i + 1;
    }
    assert(pv.drop_last().take(n as int) =~= pv.drop_last());
    if ultimo.len() > 0 {
        res.push(ultimo);
        assert(vistas(res@) =~= pv.drop_last().map_values(sem_cr_fn()).push(pv.last()));
    }
    res
}

/// Which chars a trim removes.
pub enum Alvo {
    Espaco,
    Letra(char),
}

pub open spec fn casa(a: Alvo, c: char) -> bool {
    match a {
        Alvo::Espaco => eh_espaco(c),
        Alvo::Letra(x) => c == x,
    }
}

pub fn casa_exec(a: &Alvo, c: char) -> (b: bool)
    ensures
        b == casa(*a, c),
{
    match a {
        Alvo::Espaco => e_espaco(c),
        Alvo::Letra(x) => c == *x,
    }
}

/// `trim_start_matches` for a char class.
pub open spec fn aparar_inicio(s: Seq<char>, a: Alvo) -> Seq<char>
    decreases s.len(),
{
    if s.len() > 0 && casa(a, s[0]) {
        aparar_inicio(s.drop_first(), a)
    } else {
        s
    }
}

/// `trim_end_matches` for a char class.
pub open spec fn aparar_fim(s: Seq<char>, a: Alvo) -> Seq<char>
    decreases s.len(),
{
    if s.len() > 0 && casa(a, s.last()) {
        aparar_fim(s.drop_last(), a)
    } else {
        s
    }
}

/// `str::trim`: no whitespace at either end.
pub open spec fn aparar(s: Seq<char>) -> Seq<char> {
    aparar_fim(aparar_inicio(s, Alvo::Espaco), Alvo::Espaco)
}

/// Removes the chars of class `a` at the start (when `inicio`) and at the end (when `fim`).
pub fn aparar_por(s: &[char], a: &Alvo, inicio: bool, fim: bool) -> (r: Vec<char>)
    ensures
        r@ == ({
            let t = if inicio { aparar_inicio(s@, *a) } else { s@ };
            if fim { aparar_fim(t, *a) } else { t }
        }),
{
    let n = s.len();
    let mut i: usize = 0;
    if inicio {
        assert(s@.subrange(0, n as int) =~= s@);
        while i < n && casa_exec(a, s[i])
            invariant
                n == s@.len(),
                i <= n,
                aparar_inicio(s@, *a) == aparar_inicio(s@.subrange(i as int, n as int), *a),
            decreases n - i,
        {
            assert(s@.subrange(i as int, n as int).drop_first() =~= s@.subrange(i + 1, n as int));
            i = i + 1;
        }
    } else {
        assert(s@.subrange(0, n as int) =~= s@);
    }
    let mut j: usize = n;
    if fim {
        while j > i && casa_exec(a, s[j - 1])
            invariant
                n == s@.len(),
                i <= j <= n,
                aparar_fim(s@.subrange(i as int, n as int), *a) == aparar_fim(
                    s@.subrange(i as int, j as int),
                    *a,
                ),
            decreases j - i,
        {
            assert(s@.subrange(i as int, j as int).drop_last() =~= s@.subrange(
                i as int,
                j - 1,
            ));
            j = j - 1;
        }
    }
    let mut r: Vec<char> = Vec::new();
    let mut k: usize = i;
    while k < j
        invariant
            i <= k <= j <= n,
            n == s@.len(),
            r@ =~= s@.subrange(i as int, k as int),
        decreases j - k,
    {
        r.push(s[k]);
        k = k + 1;
    }
    r
}

/// `str::trim`.
pub fn aparar_espacos(s: &[char]) -> (r: Vec<char>)
    ensures
        r@ == aparar(s@),
{
    aparar_por(s, &Alvo::Espaco, true, true)
}

} // verus!

verus! {

/// `pat` occurs in `s` starting at `i`.
pub open spec fn ocorre(s: Seq<char>, pat: Seq<char>, i: int) -> bool {
    0 <= i && i + pat.len() <= s.len() && s.subrange(i, i + pat.len()) == pat
}

/// `str::starts_with`.
pub open spec fn comeca_com(s: Seq<char>, pat: Seq<char>) -> bool {
    ocorre(s, pat, 0)
}

/// `str::contains`.
pub open spec fn contem(s: Seq<char>, pat: Seq<char>) -> bool {
    exists|i: int| ocorre(s, pat, i)
}

/// Leftmost occurrence of `pat` in `s`.
#[verifier::opaque]
pub open spec fn primeira_ocorrencia(s: Seq<char>, pat: Seq<char>) -> Option<int> {
    if contem(s, pat) {
        Some(choose|i: int| ocorre(s, pat, i) && forall|j: int| 0 <= j < i ==> !ocorre(s, pat, j))
    } else {
        None
    }
}

/// Does `pat` occur in `s` at `i`?
pub fn ocorre_em(s: &[char], pat: &[char], i: usize) -> (b: bool)
    ensures
        b == ocorre(s@, pat@, i as int),
{
    let n = s.len();
    if i > n || pat.len() > n - i {
        return false;
    }
    let mut k: usize = 0;
    while k < pat.len()
        invariant
            i + pat@.len() <= s@.len(),
            n == s@.len(),
            k <= pat@.len(),
            forall|m: int| 0 <= m < k ==> s@[i + m] == pat@[m],
        decreases pat@.len() - k,
    {
        assert(i + k < n);
        if s[i + k] != pat[k] {
            assert(s@.subrange(i as int, i + pat@.len())[k as int] != pat@[k as int]);
            return false;
        }
        k = k + 1;
    }
    assert(s@.subrange(i as int, i + pat@.len()) =~= pat@);
    true
}

/// `str::starts_with`.
pub fn comeca(s: &[char], pat: &[char]) -> (b: bool)
    ensures
        b == comeca_com(s@, pat@),
{
    ocorre_em(s, pat, 0)
}

pub proof fn lemma_primeira(s: Seq<char>, pat: Seq<char>, i: int)
    requires
        ocorre(s, pat, i),
        forall|j: int| 0 <= j < i ==> !ocorre(s, pat, j),
    ensures
        primeira_ocorrencia(s, pat) == Some(i),
{
    reveal(primeira_ocorrencia);
    assert(contem(s, pat));
    let k = choose|k: int| ocorre(s, pat, k) && forall|j: int| 0 <= j < k ==> !ocorre(s, pat, j);
    assert(ocorre(s, pat, k));
    if k < i {
        assert(!ocorre(s, pat, k));
    }
    if k > i {
        assert(!ocorre(s, pat, i));
    }
}

pub proof fn lemma_nenhuma(s: Seq<char>, pat: Seq<char>)
    requires
        forall|j: int| 0 <= j <= s.len() ==> !ocorre(s, pat, j),
    ensures
        primeira_ocorrencia(s, pat) is None,
        !contem(s, pat),
{
    reveal(primeira_ocorrencia);
    if contem(s, pat) {
        let k = choose|k: int| ocorre(s, pat, k);
        assert(ocorre(s, pat, k));
        assert(!ocorre(s, pat, k));
    }
}

/// Where `pat` first occurs in `s`, from `desde` on.
pub fn achar(s: &[char], pat: &[char], desde: usize) -> (r: Option<usize>)
    requires
        desde <= s@.len(),
        forall|j: int| 0 <= j < desde ==> !ocorre(s@, pat@, j),
    ensures
        primeira_ocorrencia(s@, pat@) == match r {
            Some(k) => Some(k as int),
            None => None::<int>,
        },
        match r {
            Some(k) => ocorre(s@, pat@, k as int),
            None => !contem(s@, pat@),
        },
{
    let n = s.len();
    let mut i: usize = desde;
    while i < n
        invariant
            desde <= i,
            i <= n,
            n == s@.len(),
            forall|j: int| 0 <= j < i ==> !ocorre(s@, pat@, j),
        decreases n - i,
    {
        if ocorre_em(s, pat, i) {
            proof {
                lemma_primeira(s@, pat@, i as int);
            }
            return Some(i);
        }
        i = i + 1;
    }
    if ocorre_em(s, pat, n) {
        proof {
            lemma_primeira(s@, pat@, n as int);
        }
        return Some(n);
    }
    proof {
        lemma_nenhuma(s@, pat@);
    }
    None
}

/// `str::contains`.
pub fn contem_exec(s: &[char], pat: &[char]) -> (b: bool)
    ensures
        b == contem(s@, pat@),
{
    match achar(s, pat, 0) {
        Some(k) => {
            assert(ocorre(s@, pat@, k as int));
            true
        },
        None => false,
    }
}

} // verus!

verus! {

pub open spec fn eh_digito(c: char) -> bool {
    48 <= (c as u32) && (c as u32) <= 57
}

pub open spec fn valor_digito(c: char) -> nat {
    ((c as u32) - 48) as nat
}

/// The number that a sequence of decimal digits writes.
pub open spec fn valor_decimal(d: Seq<char>) -> nat
    decreases d.len(),
{
    if d.len() == 0 {
        0
    } else {
        valor_decimal(d.drop_last()) * 10 + valor_digito(d.last())
    }
}

pub open spec fn so_digitos(d: Seq<char>) -> bool {
    d.len() > 0 && forall|i: int| 0 <= i < d.len() ==> eh_digito(#[trigger] d[i])
}

/// `FromStr` of an unsigned integer type whose largest value is `max`:
/// an optional `'+'`, then one or more decimal digits, at most `max`.
pub open spec fn num_natural(s: Seq<char>, max: nat) -> Option<nat> {
    let d = if s.len() > 0 && s[0] == '+' {
        s.drop_first()
    } else {
        s
    };
    if so_digitos(d) && valor_decimal(d) <= max {
        Some(valor_decimal(d))
    } else {
        None
    }
}

/// `i64::from_str`: an optional sign, then one or more decimal digits, in range.
pub open spec fn num_i64(s: Seq<char>) -> Option<int> {
    if s.len() > 0 && s[0] == '-' {
        let d = s.drop_first();
        if so_digitos(d) && valor_decimal(d) <= 0x8000_0000_0000_0000 {
            Some(-(valor_decimal(d) as int))
        } else {
            None
        }
    } else {
        match num_natural(s, 0x7fff_ffff_ffff_ffff) {
            Some(v) => Some(v as int),
            None => None,
        }
    }
}

pub open spec fn num_u64(s: Seq<char>) -> Option<u64> {
    match num_natural(s, u64::MAX as nat) {
        Some(v) => Some(v as u64),
        None => None,
    }
}

pub open spec fn num_u32(s: Seq<char>) -> Option<u32> {
    match num_natural(s, u32::MAX as nat) {
        Some(v) => Some(v as u32),
        None => None,
    }
}

pub open spec fn num_u8(s: Seq<char>) -> Option<u8> {
    match num_natural(s, u8::MAX as nat) {
        Some(v) => Some(v as u8),
        None => None,
    }
}

pub proof fn lemma_valor_cresce(d: Seq<char>, k: int)
    requires
        0 <= k <= d.len(),
    ensures
        valor_decimal(d.take(k)) <= valor_decimal(d),
    decreases d.len() - k,
{
    if k < d.len() {
        lemma_valor_cresce(d, k + 1);
        assert(d.take(k + 1).drop_last() =~= d.take(k));
    } else {
        assert(d.take(k) =~= d);
    }
}

/// Digits from `inicio` on, read as a number of at most `max`.
fn digitos(s: &[char], inicio: usize, max: u64) -> (r: Option<u64>)
    requires
        inicio <= s@.len(),
    ensures
        ({
            let d = s@.subrange(inicio as int, s@.len() as int);
            r == if so_digitos(d) && valor_decimal(d) <= max {
                Some(valor_decimal(d) as u64)
            } else {
                None::<u64>
            }
        }),
{
    let n = s.len();
    let ghost d = s@.subrange(inicio as int, n as int);
    if inicio == n {
        return None;
    }
    let mut v: u64 = 0;
    let mut i: usize = inicio;
    assert(d.take(0) =~= Seq::<char>::empty());
    while i < n
        invariant
            inicio <= i <= n,
            n == s@.len(),
            d == s@.subrange(inicio as int, n as int),
            v as nat == valor_decimal(d.take(i - inicio)),
            v <= max,
            forall|m: int| 0 <= m < i - inicio ==> eh_digito(#[trigger] d[m]),
        decreases n - i,
    {
        let c = s[i];
        let code = c as u32;
        assert(d[i - inicio] == c);
        if code < 48 || code > 57 {
            return None;
        }
        let dg = (code - 48) as u64;
        assert(d.take(i - inicio + 1).drop_last() =~= d.take(i - inicio));
        let w: u128 = (v as u128) * 10 + (dg as u128);
        if w > max as u128 {
            proof {
                lemma_valor_cresce(d, i - inicio + 1);
            }
            return None;
        }
        v = w as u64;
        i = i + 1;
    }
    assert(d.take(n - inicio) =~= d);
    Some(v)
}

/// `FromStr` for an unsigned integer type whose largest value is `max`.
pub fn numero(s: &[char], max: u64) -> (r: Option<u64>)
    ensures
        r == match num_natural(s@, max as nat) {
            Some(v) => Some(v as u64),
            None => None::<u64>,
        },
{
    if s.len() > 0 && s[0] == '+' {
        assert(s@.drop_first() =~= s@.subrange(1, s@.len() as int));
        digitos(s, 1, max)
    } else {
        assert(s@ =~= s@.subrange(0, s@.len() as int));
        digitos(s, 0, max)
    }
}

/// `u64::from_str`.
pub fn num_u64_exec(s: &[char]) -> (r: Option<u64>)
    ensures
        r == num_u64(s@),
{
    numero(s, u64::MAX)
}

/// `u32::from_str`.
pub fn num_u32_exec(s: &[char]) -> (r: Option<u32>)
    ensures
        r == num_u32(s@),
{
    match numero(s, u32::MAX as u64) {
        Some(v) => Some(v as u32),
        None => None,
    }
}

/// `u8::from_str`.
pub fn num_u8_exec(s: &[char]) -> (r: Option<u8>)
    ensures
        r == num_u8(s@),
{
    match numero(s, u8::MAX as u64) {
        Some(v) => Some(v as u8),
        None => None,
    }
}

/// `i64::from_str`.
pub fn num_i64_exec(s: &[char]) -> (r: Option<i64>)
    ensures
        r == match num_i64(s@) {
            Some(v) => Some(v as i64),
            None => None::<i64>,
        },
{
    if s.len() > 0 && s[0] == '-' {
        assert(s@.drop_first() =~= s@.subrange(1, s@.len() as int));
        match digitos(s, 1, 0x8000_0000_0000_0000u64) {
            Some(v) => {
                if v == 0x8000_0000_0000_0000u64 {
                    Some(i64::MIN)
                } else {
                    Some(-(v as i64))
                }
            },
            None => None,
        }
    } else {
        match numero(s, i64::MAX as u64) {
            Some(v) => Some(v as i64),
            None => None,
        }
    }
}

/// The decimal digit `n` (`n < 10`).
pub open spec fn digito(n: nat) -> char {
    ((n + 48) as u32) as char
}

/// How `Display` writes a natural number in decimal.
pub open spec fn decimal(n: nat) -> Seq<char>
    decreases n,
{
    if n < 10 {
        seq![digito(n)]
    } else {
        decimal(n / 10).push(digito(n % 10))
    }
}

pub fn digito_exec(n: u64) -> (c: char)
    requires
        n < 10,
    ensures
        c == digito(n as nat),
{
    ((n + 48) as u8) as char
}

/// Appends the decimal digits of `n` to `out`.
pub fn escrever_decimal(out: &mut String, n: u64)
    ensures
        final(out)@ == old(out)@ + decimal(n as nat),
    decreases n,
{
    if n >= 10 {
        escrever_decimal(out, n / 10);
    }
    out.push(digito_exec(n % 10));
    assert(final(out)@ =~= old(out)@ + decimal(n as nat));
}

} // verus!

verus! {

/// Equality of two char sequences.
pub fn iguais(a: &[char], b: &[char]) -> (r: bool)
    ensures
        r == (a@ == b@),
{
    if a.len() != b.len() {
        return false;
    }
    let mut i: usize = 0;
    while i < a.len()
        invariant
            a@.len() == b@.len(),
            i <= a@.len(),
            forall|k: int| 0 <= k < i ==> a@[k] == b@[k],
        decreases a@.len() - i,
    {
        if a[i] != b[i] {
            return false;
        }
        i = i + 1;
    }
    assert(a@ =~= b@);
    true
}

/// Does `a` hold exactly the text `lit`?
pub fn igual_a(a: &[char], lit: &str) -> (r: bool)
    ensures
        r == (a@ == lit@),
{
    let b = chars_de(lit);
    iguais(a, b.as_slice())
}

} // verus!

verus! {

pub open spec fn aparar_fn() -> spec_fn(Seq<char>) -> Seq<char> {
    |w: Seq<char>| aparar(w)
}

/// `s.split(pat).nth(1)`: the text between the first and the second occurrence of
/// `pat`, or to the end when it occurs once; `None` when it does not occur.
pub open spec fn segundo_pedaco(s: Seq<char>, pat: Seq<char>) -> Option<Seq<char>> {
    match primeira_ocorrencia(s, pat) {
        None => None,
        Some(k) => {
            let r = s.subrange(k + pat.len(), s.len() as int);
            match primeira_ocorrencia(r, pat) {
                None => Some(r),
                Some(k2) => Some(r.subrange(0, k2)),
            }
        },
    }
}

pub fn segundo_pedaco_exec(s: &[char], pat: &[char]) -> (r: Option<Vec<char>>)
    ensures
        match r {
            Some(v) => segundo_pedaco(s@, pat@) == Some(v@),
            None => segundo_pedaco(s@, pat@) is None,
        },
{
    match achar(s, pat, 0) {
        None => None,
        Some(k) => {
            assert(ocorre(s@, pat@, k as int));
            let n = s.len();
            assert(k + pat@.len() <= n);
            let resto = copiar_de(s, k + pat.len());
            match achar(resto.as_slice(), pat, 0) {
                None => Some(resto),
                Some(k2) => {
                    Some(copiar_ate(resto.as_slice(), k2))
                },
            }
        },
    }
}

/// Strings with the chars of each vector.
pub fn strings_de(v: &Vec<Vec<char>>) -> (r: Vec<String>)
    ensures
        vistas_string(r@) == vistas(v@),
{
    let mut r: Vec<String> = Vec::new();
    let mut i: usize = 0;
    while i < v.len()
        invariant
            i <= v@.len(),
            vistas_string(r@) =~= vistas(v@).take(i as int),
        decreases v@.len() - i,
    {
        let s = string_de(v[i].as_slice());
        let ghost antes = vistas_string(r@);
        r.push(s);
        assert(vistas_string(r@) =~= antes.push(s@));
        assert(vistas(v@).take(i + 1) =~= vistas(v@).take(i as int).push(v@[i as int]@));
        i = i + 1;
    }
    assert(vistas(v@).take(v@.len() as int) =~= vistas(v@));
    r
}

/// Trims every piece.
pub fn aparar_todos(v: &Vec<Vec<char>>) -> (r: Vec<Vec<char>>)
    ensures
        vistas(r@) == vistas(v@).map_values(aparar_fn()),
{
    let mut r: Vec<Vec<char>> = Vec::new();
    let mut i: usize = 0;
    while i < v.len()
        invariant
            i <= v@.len(),
            vistas(r@) =~= vistas(v@).take(i as int).map_values(aparar_fn()),
        decreases v@.len() - i,
    {
        let s = aparar_espacos(v[i].as_slice());
        let ghost antes = vistas(r@);
        r.push(s);
        assert(vistas(r@) =~= antes.push(s@));
        assert(vistas(v@).take(i + 1) =~= vistas(v@).take(i as int).push(v@[i as int]@));
        assert(vistas(v@).take(i + 1).map_values(aparar_fn()) =~= vistas(v@).take(i as int).map_values(aparar_fn()).push(aparar(v@[i as int]@)));
        i = i + 1;
    }
    assert(vistas(v@).take(v@.len() as int) =~= vistas(v@));
    r
}

} // verus!
