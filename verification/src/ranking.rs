//! La tabla de posiciones: puntaje acumulado por nombre de jugador.
//!
//! Aqui la tabla es una lista de entradas `(nombre, puntaje)`; guardarla y
//! leerla queda fuera de este modulo.

use crate::mensaje::ranking_v;
use vstd::prelude::*;

verus! {

/// La tabla `r` con `puntos` sumados al puntaje de `nombre`: se suman a la
/// primera entrada con ese nombre o, si no hay ninguna, se agrega al final
/// una entrada nueva.
pub open spec fn con_puntaje(r: Seq<(Seq<char>, nat)>, nombre: Seq<char>, puntos: nat) -> Seq<
    (Seq<char>, nat),
>
    decreases r.len(),
{
    if r.len() == 0 {
        seq![(nombre, puntos)]
    } else if r[0].0 == nombre {
        r.update(0, (nombre, r[0].1 + puntos))
    } else {
        seq![r[0]] + con_puntaje(r.drop_first(), nombre, puntos)
    }
}

/// Algun puntaje de la tabla no cabe en un `usize`.
pub open spec fn desborda(r: Seq<(Seq<char>, nat)>) -> bool {
    exists|i: int| 0 <= i < r.len() && (#[trigger] r[i]).1 > usize::MAX
}

/// Inserta la entrada `e` en la tabla `r`, ordenada de mayor a menor
/// puntaje, detras de todas las entradas con puntaje mayor o igual.
pub open spec fn insertar(r: Seq<(Seq<char>, nat)>, e: (Seq<char>, nat)) -> Seq<(Seq<char>, nat)>
    decreases r.len(),
{
    if r.len() == 0 {
        seq![e]
    } else if r.last().1 >= e.1 {
        r.push(e)
    } else {
        insertar(r.drop_last(), e).push(r.last())
    }
}

/// La tabla `r` ordenada de mayor a menor puntaje; las entradas con el mismo
/// puntaje conservan su orden relativo.
pub open spec fn ordenado(r: Seq<(Seq<char>, nat)>) -> Seq<(Seq<char>, nat)>
    decreases r.len(),
{
    if r.len() == 0 {
        r
    } else {
        insertar(ordenado(r.drop_last()), r.last())
    }
}

/// Los puntajes de la tabla van de mayor a menor.
pub open spec fn es_descendente(r: Seq<(Seq<char>, nat)>) -> bool {
    forall|i: int, j: int| 0 <= i < j < r.len() ==> (#[trigger] r[i]).1 >= (#[trigger] r[j]).1
}

/// Insertar una entrada es ponerla en el lugar `pos` cuando todas las
/// entradas anteriores a `pos` tienen puntaje mayor o igual y todas las
/// siguientes tienen puntaje menor.
proof fn lema_insertar_en(r: Seq<(Seq<char>, nat)>, e: (Seq<char>, nat), pos: int)
    requires
        0 <= pos <= r.len(),
        pos > 0 ==> r[pos - 1].1 >= e.1,
        forall|k: int| pos <= k < r.len() ==> (#[trigger] r[k]).1 < e.1,
    ensures
        insertar(r, e) == r.insert(pos, e),
    decreases r.len(),
{
    if r.len() == 0 {
        assert(r.insert(pos, e) =~= seq![e]);
    } else if pos == r.len() {
        assert(r.insert(pos, e) =~= r.push(e));
    } else {
        assert(r.last().1 < e.1);
        lema_insertar_en(r.drop_last(), e, pos);
        assert(r.insert(pos, e) =~= r.drop_last().insert(pos, e).push(r.last()));
    }
}

/// Insertar en una tabla descendente da una tabla descendente con las mismas
/// entradas y la nueva.
proof fn lema_insertar(r: Seq<(Seq<char>, nat)>, e: (Seq<char>, nat))
    requires
        es_descendente(r),
    ensures
        es_descendente(insertar(r, e)),
        insertar(r, e).to_multiset() == r.to_multiset().insert(e),
        insertar(r, e).len() == r.len() + 1,
    decreases r.len(),
{
    broadcast use vstd::seq_lib::group_to_multiset_ensures;

    if r.len() == 0 {
        assert(r =~= Seq::empty());
        assert(seq![e] =~= Seq::<(Seq<char>, nat)>::empty().push(e));
    } else if r.last().1 >= e.1 {
        let s = r.push(e);
        assert forall|i: int, j: int| 0 <= i < j < s.len() implies (#[trigger] s[i]).1 >= (
        #[trigger] s[j]).1 by {
            if j == r.len() {
                if i < r.len() - 1 {
                    assert(r[i].1 >= r[r.len() - 1].1);
                }
            }
        }
    } else {
        let antes = r.drop_last();
        assert(es_descendente(antes)) by {
            assert forall|i: int, j: int| 0 <= i < j < antes.len() implies (#[trigger] antes[i]).1
                >= (#[trigger] antes[j]).1 by {
                assert(r[i].1 >= r[j].1);
            }
        }
        lema_insertar(antes, e);
        let m = insertar(antes, e);
        let s = m.push(r.last());
        assert(r =~= antes.push(r.last()));
        assert forall|x: (Seq<char>, nat)| m.contains(x) implies x.1 >= r.last().1 by {
            assert(m.to_multiset().count(x) > 0);
            if x != e {
                assert(antes.to_multiset().count(x) > 0);
                assert(antes.contains(x));
                let k = choose|k: int| 0 <= k < antes.len() && antes[k] == x;
                assert(r[k].1 >= r[r.len() - 1].1);
            }
        }
        assert forall|i: int, j: int| 0 <= i < j < s.len() implies (#[trigger] s[i]).1 >= (
        #[trigger] s[j]).1 by {
            if j == m.len() {
                assert(m.contains(m[i]));
            } else {
                assert(m[i].1 >= m[j].1);
            }
        }
        assert(s.to_multiset() =~= r.to_multiset().insert(e));
    }
}

/// La tabla ordenada es descendente y tiene exactamente las mismas entradas
/// que la tabla dada.
pub proof fn lema_ordenado(r: Seq<(Seq<char>, nat)>)
    ensures
        es_descendente(ordenado(r)),
        ordenado(r).to_multiset() == r.to_multiset(),
        ordenado(r).len() == r.len(),
    decreases r.len(),
{
    broadcast use vstd::seq_lib::group_to_multiset_ensures;

    if r.len() > 0 {
        lema_ordenado(r.drop_last());
        lema_insertar(ordenado(r.drop_last()), r.last());
        assert(r =~= r.drop_last().push(r.last()));
    }
}

/// Sumar puntos a una tabla que ya desborda da una tabla que desborda.
pub proof fn lema_desborda_con_puntaje(r: Seq<(Seq<char>, nat)>, nombre: Seq<char>, puntos: nat)
    requires
        desborda(r),
    ensures
        desborda(con_puntaje(r, nombre, puntos)),
    decreases r.len(),
{
    let i = choose|i: int| 0 <= i < r.len() && (#[trigger] r[i]).1 > usize::MAX;
    let s = con_puntaje(r, nombre, puntos);
    if r[0].0 == nombre {
        assert(s[i].1 > usize::MAX);
    } else if i == 0 {
        assert(s[0].1 > usize::MAX);
    } else {
        let resto = r.drop_first();
        assert(resto[i - 1].1 > usize::MAX);
        lema_desborda_con_puntaje(resto, nombre, puntos);
        let t = con_puntaje(resto, nombre, puntos);
        let k = choose|k: int| 0 <= k < t.len() && (#[trigger] t[k]).1 > usize::MAX;
        assert(s[k + 1] == t[k]);
    }
}

/// Suma `puntos` al puntaje de `nombre` en la tabla. Devuelve `false`, sin
/// cambiar la tabla, cuando el nuevo puntaje no cabe en un `usize`.
pub fn sumar_puntaje(ranking: &mut Vec<(String, usize)>, nombre: &String, puntos: usize) -> (ok:
    bool)
    ensures
        ok == !desborda(con_puntaje(ranking_v(old(ranking)@), nombre@, puntos as nat)),
        ok ==> ranking_v(final(ranking)@) == con_puntaje(
            ranking_v(old(ranking)@),
            nombre@,
            puntos as nat,
        ),
        !ok ==> ranking_v(final(ranking)@) == ranking_v(old(ranking)@),
{
    let ghost r = ranking_v(ranking@);
    let mut i: usize = 0;
    assert(r.take(0) + con_puntaje(r.skip(0), nombre@, puntos as nat) =~= con_puntaje(
        r,
        nombre@,
        puntos as nat,
    )) by {
        assert(r.skip(0) =~= r);
        assert(r.take(0) =~= Seq::empty());
    }
    while i < ranking.len()
        invariant
            i <= ranking@.len(),
            *ranking == *old(ranking),
            r == ranking_v(ranking@),
            con_puntaje(r, nombre@, puntos as nat) == r.take(i as int) + con_puntaje(
                r.skip(i as int),
                nombre@,
                puntos as nat,
            ),
        decreases ranking@.len() - i,
    {
        let ghost resto = r.skip(i as int);
        assert(resto[0] == r[i as int]);
        assert(r[i as int] == (ranking@[i as int].0@, ranking@[i as int].1 as nat));
        if ranking[i].0 == *nombre {
            let actual = ranking[i].1;
            let ghost total = r.take(i as int) + resto.update(
                0,
                (nombre@, (actual + puntos) as nat),
            );
            assert(con_puntaje(r, nombre@, puntos as nat) == total);
            if puntos > usize::MAX - actual {
                assert(total[i as int].1 > usize::MAX);
                return false;
            }
            ranking.set(i, (nombre.clone(), actual + puntos));
            assert(ranking_v(ranking@) =~= total);
            assert(!desborda(total)) by {
                if desborda(total) {
                    let k = choose|k: int| 0 <= k < total.len() && (#[trigger] total[k]).1
                        > usize::MAX;
                    if k != i {
                        assert(total[k] == r[k]);
                    }
                }
            }
            return true;
        }
        assert(r.take(i + 1) + con_puntaje(r.skip(i + 1), nombre@, puntos as nat) =~= r.take(
            i as int,
        ) + con_puntaje(resto, nombre@, puntos as nat)) by {
            assert(resto.drop_first() =~= r.skip(i + 1));
            assert(r.take(i + 1) =~= r.take(i as int) + seq![r[i as int]]);
        }
        i = i + 1;
    }
    let ghost total = r.push((nombre@, puntos as nat));
    assert(con_puntaje(r, nombre@, puntos as nat) =~= total) by {
        assert(r.skip(r.len() as int) =~= Seq::empty());
        assert(r.take(r.len() as int) =~= r);
    }
    ranking.push((nombre.clone(), puntos));
    assert(ranking_v(ranking@) =~= total);
    assert(!desborda(total)) by {
        if desborda(total) {
            let k = choose|k: int| 0 <= k < total.len() && (#[trigger] total[k]).1 > usize::MAX;
            if k < r.len() {
                assert(total[k] == r[k]);
            }
        }
    }
    true
}

/// Copia de la tabla ordenada de mayor a menor puntaje; las entradas con el
/// mismo puntaje conservan su orden relativo.
pub fn ordenar_ranking(ranking: &Vec<(String, usize)>) -> (r: Vec<(String, usize)>)
    ensures
        ranking_v(r@) == ordenado(ranking_v(ranking@)),
        es_descendente(ranking_v(r@)),
        ranking_v(r@).to_multiset() == ranking_v(ranking@).to_multiset(),
{
    let ghost entrada = ranking_v(ranking@);
    let mut orden: Vec<(String, usize)> = Vec::new();
    let mut i: usize = 0;
    assert(entrada.take(0) =~= Seq::empty());
    assert(ranking_v(orden@) =~= ordenado(entrada.take(0)));
    while i < ranking.len()
        invariant
            i <= ranking@.len(),
            entrada == ranking_v(ranking@),
            ranking_v(orden@) == ordenado(entrada.take(i as int)),
            orden@.len() == i,
        decreases ranking@.len() - i,
    {
        let puntos = ranking[i].1;
        let ghost antes = ranking_v(orden@);
        let ghost e = entrada[i as int];
        proof {
            lema_ordenado(entrada.take(i as int));
            assert(entrada.take(i + 1).drop_last() =~= entrada.take(i as int));
        }
        let mut pos: usize = orden.len();
        while pos > 0 && orden[pos - 1].1 < puntos
            invariant
                pos <= orden@.len(),
                antes == ranking_v(orden@),
                e.1 == puntos,
                forall|k: int| pos <= k < antes.len() ==> (#[trigger] antes[k]).1 < e.1,
            decreases pos,
        {
            assert(antes[pos - 1] == (orden@[pos - 1].0@, orden@[pos - 1].1 as nat));
            pos = pos - 1;
        }
        proof {
            if pos > 0 {
                assert(antes[pos - 1] == (orden@[pos - 1].0@, orden@[pos - 1].1 as nat));
            }
            lema_insertar_en(antes, e, pos as int);
        }
        orden.insert(pos, (ranking[i].0.clone(), puntos));
        assert(ranking_v(orden@) =~= antes.insert(pos as int, e));
        i = i + 1;
    }
    proof {
        assert(entrada.take(ranking@.len() as int) =~= entrada);
        lema_ordenado(entrada);
    }
    orden
}

} // verus!
