//! Orden estable por claves: una cifra y un texto, comparados como lo hace
//! Rust con enteros y `String` (el texto, carácter a carácter por su código),
//! de menor a mayor o de mayor a menor, y a igualdad de clave en el orden en
//! que llegaron.

use vstd::prelude::*;

verus! {

/// `a` va antes que `b` comparando carácter a carácter por su código; un
/// prefijo va antes que el texto más largo.
pub open spec fn menor_texto(a: Seq<char>, b: Seq<char>) -> bool
    decreases a.len(),
{
    if a.len() == 0 {
        b.len() > 0
    } else if b.len() == 0 {
        false
    } else if a[0] != b[0] {
        a[0] < b[0]
    } else {
        menor_texto(a.drop_first(), b.drop_first())
    }
}

/// Clave de orden: primero la cifra, después el texto.
pub open spec fn menor_clave(a: (int, Seq<char>), b: (int, Seq<char>)) -> bool {
    a.0 < b.0 || (a.0 == b.0 && menor_texto(a.1, b.1))
}

/// Si la clave `a` va estrictamente antes que `b` en el sentido pedido.
pub open spec fn antes_clave(a: (int, Seq<char>), b: (int, Seq<char>), desc: bool) -> bool {
    if desc {
        menor_clave(b, a)
    } else {
        menor_clave(a, b)
    }
}

/// El elemento `x` va antes que `y`: por clave y, a igualdad, por su posición.
pub open spec fn precede(k: Seq<(int, Seq<char>)>, desc: bool, x: int, y: int) -> bool {
    antes_clave(k[x], k[y], desc) || (k[x] == k[y] && x < y)
}

/// `p` pone en orden los `n` primeros elementos de `k`: cada índice una vez
/// y cada uno antes que los que le siguen.
pub open spec fn ordenados(k: Seq<(int, Seq<char>)>, desc: bool, p: Seq<int>, n: int) -> bool {
    &&& p.len() == n
    &&& forall|a: int| 0 <= a < p.len() ==> 0 <= #[trigger] p[a] < n
    &&& forall|a: int, b: int| 0 <= a < b < p.len() ==> precede(k, desc, #[trigger] p[a], #[trigger] p[b])
}

pub proof fn lema_texto_irreflexivo(a: Seq<char>)
    ensures
        !menor_texto(a, a),
    decreases a.len(),
{
    if a.len() > 0 {
        lema_texto_irreflexivo(a.drop_first());
    }
}

pub proof fn lema_texto_total(a: Seq<char>, b: Seq<char>)
    ensures
        a == b || menor_texto(a, b) || menor_texto(b, a),
        !(menor_texto(a, b) && menor_texto(b, a)),
    decreases a.len(),
{
    if a.len() > 0 && b.len() > 0 {
        if a[0] != b[0] {
            assert(a[0] < b[0] || b[0] < a[0]);
        } else {
            lema_texto_total(a.drop_first(), b.drop_first());
            if a.drop_first() == b.drop_first() {
                assert(a =~= seq![a[0]] + a.drop_first());
                assert(b =~= seq![b[0]] + b.drop_first());
            }
        }
    } else if a.len() == 0 && b.len() == 0 {
        assert(a =~= b);
    }
}

pub proof fn lema_texto_transitivo(a: Seq<char>, b: Seq<char>, c: Seq<char>)
    requires
        menor_texto(a, b),
        menor_texto(b, c),
    ensures
        menor_texto(a, c),
    decreases a.len(),
{
    if a.len() > 0 && b.len() > 0 && c.len() > 0 && a[0] == b[0] && b[0] == c[0] {
        lema_texto_transitivo(a.drop_first(), b.drop_first(), c.drop_first());
    }
}

pub proof fn lema_clave_orden(a: (int, Seq<char>), b: (int, Seq<char>), c: (int, Seq<char>), desc: bool)
    ensures
        !antes_clave(a, a, desc),
        a == b || antes_clave(a, b, desc) || antes_clave(b, a, desc),
        !(antes_clave(a, b, desc) && antes_clave(b, a, desc)),
        antes_clave(a, b, desc) && antes_clave(b, c, desc) ==> antes_clave(a, c, desc),
{
    lema_texto_irreflexivo(a.1);
    lema_texto_total(a.1, b.1);
    if a.0 == b.0 && a.1 == b.1 {
        assert(a == b);
    }
    if antes_clave(a, b, desc) && antes_clave(b, c, desc) {
        if desc {
            if c.0 == b.0 && b.0 == a.0 {
                lema_texto_transitivo(c.1, b.1, a.1);
            }
        } else {
            if a.0 == b.0 && b.0 == c.0 {
                lema_texto_transitivo(a.1, b.1, c.1);
            }
        }
    }
}

/// Si `a` va estrictamente antes que `b` comparando carácter a carácter.
pub fn menor_texto_exec(a: &Vec<char>, b: &Vec<char>) -> (r: bool)
    ensures
        r == menor_texto(a@, b@),
{
    let mut i: usize = 0;
    assert(a@.skip(0) =~= a@);
    assert(b@.skip(0) =~= b@);
    while i < a.len() && i < b.len() && a[i] == b[i]
        invariant
            i <= a.len(),
            i <= b.len(),
            menor_texto(a@, b@) == menor_texto(a@.skip(i as int), b@.skip(i as int)),
        decreases a.len() - i,
    {
        assert(a@.skip(i as int).drop_first() =~= a@.skip(i + 1));
        assert(b@.skip(i as int).drop_first() =~= b@.skip(i + 1));
        i = i + 1;
    }
    if i == a.len() {
        i < b.len()
    } else if i == b.len() {
        false
    } else {
        a[i] < b[i]
    }
}

pub open spec fn vista_claves(k: Seq<(i64, Vec<char>)>) -> Seq<(int, Seq<char>)> {
    k.map_values(|x: (i64, Vec<char>)| (x.0 as int, x.1@))
}

pub open spec fn enteros(p: Seq<usize>) -> Seq<int> {
    p.map_values(|x: usize| x as int)
}

fn antes_exec(k: &Vec<(i64, Vec<char>)>, x: usize, y: usize, desc: bool) -> (r: bool)
    requires
        x < k.len(),
        y < k.len(),
    ensures
        r == antes_clave(vista_claves(k@)[x as int], vista_claves(k@)[y as int], desc),
{
    let (a, b) = if desc {
        (y, x)
    } else {
        (x, y)
    };
    let ka = &k[a];
    let kb = &k[b];
    ka.0 < kb.0 || (ka.0 == kb.0 && menor_texto_exec(&ka.1, &kb.1))
}

/// Los índices de `k` en orden estable por clave, de menor a mayor o, con
/// `desc`, de mayor a menor.
pub fn ordenar(k: &Vec<(i64, Vec<char>)>, desc: bool) -> (r: Vec<usize>)
    ensures
        ordenados(vista_claves(k@), desc, enteros(r@), k@.len() as int),
{
    let ghost kv = vista_claves(k@);
    let mut r: Vec<usize> = Vec::new();
    let mut i: usize = 0;
    while i < k.len()
        invariant
            i <= k.len(),
            kv == vista_claves(k@),
            ordenados(kv, desc, enteros(r@), i as int),
        decreases k.len() - i,
    {
        // primer puesto cuya clave va después de la de `i`
        let mut p: usize = 0;
        assert forall|a: int| 0 <= a < r.len() implies (r@[a] as int) < i by {
            assert(enteros(r@)[a] == r@[a] as int);
        }
        while p < r.len() && !antes_exec(k, i, r[p], desc)
            invariant
                p <= r.len() == i < k.len(),
                kv == vista_claves(k@),
                ordenados(kv, desc, enteros(r@), i as int),
                forall|a: int| 0 <= a < r.len() ==> (r@[a] as int) < i,
                forall|a: int| 0 <= a < p ==> !antes_clave(kv[i as int], kv[enteros(r@)[a]], desc),
            decreases r.len() - p,
        {
            assert(enteros(r@)[p as int] == r@[p as int] as int);
            p = p + 1;
        }
        let ghost viejo = enteros(r@);
        r.insert(p, i);
        proof {
            let nuevo = enteros(r@);
            assert(nuevo =~= viejo.subrange(0, p as int).push(i as int) + viejo.subrange(
                p as int,
                viejo.len() as int,
            ));
            assert forall|a: int| 0 <= a < nuevo.len() implies 0 <= #[trigger] nuevo[a] < i + 1 by {
                if a < p {
                    assert(nuevo[a] == viejo[a]);
                } else if a > p {
                    assert(nuevo[a] == viejo[a - 1]);
                }
            }
            assert forall|a: int, b: int| 0 <= a < b < nuevo.len() implies precede(
                kv,
                desc,
                #[trigger] nuevo[a],
                #[trigger] nuevo[b],
            ) by {
                lema_insercion(kv, desc, viejo, nuevo, i as int, p as int, a, b);
            }
        }
        i = i + 1;
    }
    r
}

proof fn lema_insercion(
    kv: Seq<(int, Seq<char>)>,
    desc: bool,
    viejo: Seq<int>,
    nuevo: Seq<int>,
    i: int,
    p: int,
    a: int,
    b: int,
)
    requires
        0 <= i < kv.len(),
        0 <= p <= viejo.len(),
        ordenados(kv, desc, viejo, i),
        forall|x: int| 0 <= x < p ==> !antes_clave(kv[i], kv[viejo[x]], desc),
        p < viejo.len() ==> antes_clave(kv[i], kv[viejo[p]], desc),
        nuevo == viejo.subrange(0, p).push(i) + viejo.subrange(p, viejo.len() as int),
        0 <= a < b < nuevo.len(),
    ensures
        precede(kv, desc, nuevo[a], nuevo[b]),
{
    let va = nuevo[a];
    let vb = nuevo[b];
    if a < p && b < p {
        assert(va == viejo[a] && vb == viejo[b]);
    } else if a > p && b > p {
        assert(va == viejo[a - 1] && vb == viejo[b - 1]);
    } else if a < p && b > p {
        assert(va == viejo[a] && vb == viejo[b - 1]);
    } else if a == p {
        // `i` antes que todos los que le siguen
        assert(va == i);
        assert(vb == viejo[b - 1]);
        assert(antes_clave(kv[i], kv[viejo[p]], desc));
        if b - 1 > p {
            assert(precede(kv, desc, viejo[p], viejo[b - 1]));
            lema_clave_orden(kv[i], kv[viejo[p]], kv[viejo[b - 1]], desc);
        }
    } else {
        // b == p: los anteriores van antes que `i`
        assert(vb == i);
        assert(va == viejo[a]);
        assert(!antes_clave(kv[i], kv[viejo[a]], desc));
        lema_clave_orden(kv[viejo[a]], kv[i], kv[i], desc);
        assert(viejo[a] < i);
    }
}

} // verus!
