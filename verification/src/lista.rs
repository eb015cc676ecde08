use vstd::prelude::*;
use crate::texto::{chars_de, iguais};

verus! {

/// Whether the key `k` is in the association list `l`.
pub open spec fn tem_chave<V>(l: Seq<(Seq<char>, V)>, k: Seq<char>) -> bool {
    exists|i: int| 0 <= i < l.len() && l[i].0 == k
}

/// No key occurs twice.
pub open spec fn chaves_distintas<V>(l: Seq<(Seq<char>, V)>) -> bool {
    forall|i: int, j: int| 0 <= i < l.len() && 0 <= j < l.len() && i != j ==> l[i].0 != l[j].0
}

/// `HashMap::insert` on an association list: the entry of `k` takes `v`, or
/// `(k, v)` goes at the end.
pub open spec fn inserir<V>(l: Seq<(Seq<char>, V)>, k: Seq<char>, v: V) -> Seq<(Seq<char>, V)> {
    if tem_chave(l, k) {
        l.map_values(|e: (Seq<char>, V)| if e.0 == k { (k, v) } else { e })
    } else {
        l.push((k, v))
    }
}

/// `entry(k).or_insert(v)` on an association list: a key already there keeps its value.
pub open spec fn inserir_se_ausente<V>(l: Seq<(Seq<char>, V)>, k: Seq<char>, v: V) -> Seq<(Seq<char>, V)> {
    if tem_chave(l, k) {
        l
    } else {
        l.push((k, v))
    }
}

/// The value of the first entry with key `k`.
pub open spec fn buscar<V>(l: Seq<(Seq<char>, V)>, k: Seq<char>) -> Option<V>
    decreases l.len(),
{
    if l.len() == 0 {
        None
    } else if l[0].0 == k {
        Some(l[0].1)
    } else {
        buscar(l.drop_first(), k)
    }
}

pub proof fn lemma_inserir_distintas<V>(l: Seq<(Seq<char>, V)>, k: Seq<char>, v: V, j: int)
    requires
        chaves_distintas(l),
        0 <= j < l.len(),
        l[j].0 == k,
    ensures
        inserir(l, k, v) == l.update(j, (k, v)),
{
    assert(tem_chave(l, k));
    assert(inserir(l, k, v) =~= l.update(j, (k, v)));
}

pub fn indice_chave<V>(l: &Vec<(String, V)>, k: &[char]) -> (r: Option<usize>)
    ensures
        match r {
            Some(j) => j < l@.len() && l@[j as int].0@ == k@,
            None => forall|i: int| 0 <= i < l@.len() ==> l@[i].0@ != k@,
        },
{
    let mut i: usize = 0;
    while i < l.len()
        invariant
            i <= l@.len(),
            forall|m: int| 0 <= m < i ==> l@[m].0@ != k@,
        decreases l@.len() - i,
    {
        let cs = chars_de(l[i].0.as_str());
        if iguais(cs.as_slice(), k) {
            return Some(i);
        }
        i = i + 1;
    }
    None
}

proof fn lemma_distintas_cauda<V>(l: Seq<(Seq<char>, V)>)
    requires
        chaves_distintas(l),
        l.len() > 0,
    ensures
        chaves_distintas(l.drop_first()),
{
    assert forall|i: int, j: int|
        0 <= i < l.drop_first().len() && 0 <= j < l.drop_first().len() && i != j implies
        l.drop_first()[i].0 != l.drop_first()[j].0 by {
        assert(l.drop_first()[i] == l[i + 1]);
        assert(l.drop_first()[j] == l[j + 1]);
    }
}

proof fn lemma_buscar_em<V>(l: Seq<(Seq<char>, V)>, k: Seq<char>, i: int)
    requires
        chaves_distintas(l),
        0 <= i < l.len(),
        l[i].0 == k,
    ensures
        buscar(l, k) == Some(l[i].1),
    decreases l.len(),
{
    if i > 0 {
        assert(l[0].0 != k);
        lemma_distintas_cauda(l);
        assert(l.drop_first()[i - 1] == l[i]);
        lemma_buscar_em(l.drop_first(), k, i - 1);
    }
}

proof fn lemma_buscar_ausente<V>(l: Seq<(Seq<char>, V)>, k: Seq<char>)
    requires
        !tem_chave(l, k),
    ensures
        buscar(l, k) is None,
    decreases l.len(),
{
    if l.len() > 0 {
        assert(l[0].0 != k);
        assert(!tem_chave(l.drop_first(), k)) by {
            if tem_chave(l.drop_first(), k) {
                let j = choose|j: int| 0 <= j < l.drop_first().len() && l.drop_first()[j].0 == k;
                assert(l[j + 1].0 == k);
            }
        }
        lemma_buscar_ausente(l.drop_first(), k);
    }
}

proof fn lemma_buscar_chaves<V>(l: Seq<(Seq<char>, V)>, k: Seq<char>)
    requires
        chaves_distintas(l),
    ensures
        tem_chave(l, k) ==> exists|i: int| 0 <= i < l.len() && l[i].0 == k && buscar(l, k) == Some(l[i].1),
        !tem_chave(l, k) ==> buscar(l, k) is None,
{
    if tem_chave(l, k) {
        let i = choose|i: int| 0 <= i < l.len() && l[i].0 == k;
        lemma_buscar_em(l, k, i);
    } else {
        lemma_buscar_ausente(l, k);
    }
}

/// Writing `v` under `k` keeps the keys distinct; reading `k` then gives `v`, and
/// reading any other key gives what it gave before.
pub proof fn lei_inserir_buscar<V>(l: Seq<(Seq<char>, V)>, k: Seq<char>, v: V, outra: Seq<char>)
    requires
        chaves_distintas(l),
    ensures
        chaves_distintas(inserir(l, k, v)),
        buscar(inserir(l, k, v), k) == Some(v),
        outra != k ==> buscar(inserir(l, k, v), outra) == buscar(l, outra),
{
    let r = inserir(l, k, v);
    if tem_chave(l, k) {
        let j = choose|j: int| 0 <= j < l.len() && l[j].0 == k;
        lemma_inserir_distintas(l, k, v, j);
        assert(chaves_distintas(r));
        lemma_buscar_em(r, k, j);
        if outra != k {
            if tem_chave(l, outra) {
                let m = choose|m: int| 0 <= m < l.len() && l[m].0 == outra;
                lemma_buscar_em(l, outra, m);
                lemma_buscar_em(r, outra, m);
            } else {
                assert(!tem_chave(r, outra)) by {
                    if tem_chave(r, outra) {
                        let m = choose|m: int| 0 <= m < r.len() && r[m].0 == outra;
                        assert(l[m].0 == outra);
                    }
                }
                lemma_buscar_ausente(l, outra);
                lemma_buscar_ausente(r, outra);
            }
        }
    } else {
        assert(r == l.push((k, v)));
        assert(chaves_distintas(r)) by {
            assert forall|i: int, j: int| 0 <= i < r.len() && 0 <= j < r.len() && i != j implies r[i].0 != r[j].0 by {
                if i < l.len() && j < l.len() {
                } else if i < l.len() {
                    assert(l[i].0 != k);
                } else {
                    assert(l[j].0 != k);
                }
            }
        }
        lemma_buscar_em(r, k, l.len() as int);
        if outra != k {
            lemma_buscar_chaves(l, outra);
            if tem_chave(l, outra) {
                let m = choose|m: int| 0 <= m < l.len() && l[m].0 == outra && buscar(l, outra) == Some(l[m].1);
                lemma_buscar_em(r, outra, m);
            } else {
                assert(!tem_chave(r, outra)) by {
                    if tem_chave(r, outra) {
                        let m = choose|m: int| 0 <= m < r.len() && r[m].0 == outra;
                        assert(m < l.len());
                    }
                }
                lemma_buscar_ausente(r, outra);
            }
        }
    }
}

/// `or_insert` keeps the first value written under a key: reading `k` gives its old
/// value when it had one, else `v`; other keys are untouched.
pub proof fn lei_inserir_se_ausente_buscar<V>(l: Seq<(Seq<char>, V)>, k: Seq<char>, v: V, outra: Seq<char>)
    requires
        chaves_distintas(l),
    ensures
        chaves_distintas(inserir_se_ausente(l, k, v)),
        buscar(inserir_se_ausente(l, k, v), k) == if tem_chave(l, k) {
            buscar(l, k)
        } else {
            Some(v)
        },
        outra != k ==> buscar(inserir_se_ausente(l, k, v), outra) == buscar(l, outra),
{
    if !tem_chave(l, k) {
        lei_inserir_buscar(l, k, v, outra);
        assert(inserir(l, k, v) == inserir_se_ausente(l, k, v));
    }
}

} // verus!
