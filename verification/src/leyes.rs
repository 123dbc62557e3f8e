//! Lo que vale para cualquier entrada: títulos y etiquetas que deja el
//! modelo, selecciones de notas y roles, órdenes, nombres de proyectos y
//! títulos de documentos.

use vstd::prelude::*;
use crate::analisis::{
    por_hacer, resueltos, rol_valido_spec, roles_pedidos_spec, MAXIMO_ROLES, RolCopia,
};
use crate::llm::{
    Amplio, Tarea, adornos, admisible, etiqueta_limpia, inutil, lema_adornos_fijo, lema_paso_acorta, limpiar_spec,
    paso_adornos, recortar_adornos_spec, seleccion, almohadillas, linea_bajada,
};
use crate::notas::{
    candidato_spec, capitalizar, clave_spec, nombre_valido_spec, sin_acento, notas_pedidas_spec, primera_frase,
    recorte_titulo, titulo_provisional_spec, titulo_respaldo_spec, unicos, MAXIMO_NOTAS_DOCUMENTO,
};
use crate::orden::{lema_texto_irreflexivo, ordenados, precede};
use crate::texto::{
    blanco, decimal, digito, dos_cifras, en_clase, es_cifra, lema_posicion, lema_posicion_prefijo,
    lema_sin_fin_es_prefijo, lema_sin_inicio_es_sufijo, lema_ultima_posicion, leer_u64,
    lineas, lineas_y_resto, mayuscula, posicion, primeros, recortar, sin_fin, sin_inicio,
    sin_bordes, sin_retorno, solo_cifras, trozos, unir, vistas_str,
    trozos_y_resto, ultima_posicion, valor, Clase,
};
use crate::entrevistas::{
    amplio_spec, citas, con_contenido, desplazadas, desplazar, linea_desplazada, lineas_tareas,
    marca, puntos, reloj_spec, seccion, texto_cita, valor_marca,
};

verus! {

// ---------------------------------------------------------------------------
// Títulos y etiquetas del modelo.
// ---------------------------------------------------------------------------

/// Quitar adornos dos veces es lo mismo que quitarlos una: lo que queda ya
/// no empieza ni acaba en comillas, no acaba en punto y no tiene blancos en
/// los bordes.
pub proof fn ley_adornos_idempotente(s: Seq<char>)
    ensures
        recortar_adornos_spec(recortar_adornos_spec(s)) == recortar_adornos_spec(s),
        paso_adornos(recortar_adornos_spec(s)) == recortar_adornos_spec(s),
{
    let a = recortar_adornos_spec(s);
    lema_adornos_fijo(recortar(s));
    lema_paso_acorta(a);
    assert(recortar(a) == a);
    assert(adornos(a) == a);
}

/// Lo de `recortar` nunca es más largo que lo de partida.
pub proof fn lema_recortar_acorta(s: Seq<char>)
    ensures
        recortar(s).len() <= s.len(),
{
    lema_sin_inicio_es_sufijo(s, Clase::Blanco);
    lema_sin_fin_es_prefijo(sin_inicio(s, Clase::Blanco), Clase::Blanco);
}

/// Las etiquetas seleccionadas: cada una limpia, útil, de 30 caracteres
/// como mucho, y ninguna repetida.
pub proof fn lema_seleccion(es: Seq<Seq<char>>)
    ensures
        forall|i: int|
            0 <= i < seleccion(es).len() ==> {
                &&& (#[trigger] seleccion(es)[i]).len() > 0
                &&& !inutil(seleccion(es)[i])
                &&& seleccion(es)[i].len() <= 30
            },
        forall|i: int, j: int|
            0 <= i < j < seleccion(es).len() ==> #[trigger] seleccion(es)[i] != #[trigger] seleccion(
                es,
            )[j],
    decreases es.len(),
{
    if es.len() > 0 {
        lema_seleccion(es.drop_last());
        let v = seleccion(es.drop_last());
        let l = etiqueta_limpia(es.last());
        if admisible(l, v) {
            let w = v.push(l);
            assert(seleccion(es) == w);
            lema_recortar_acorta(
                primeros(
                    crate::llm::solo_permitidos(
                        crate::texto::minusculas(
                            sin_inicio(recortar(es.last()), Clase::Almohadilla),
                        ),
                    ),
                    30,
                ),
            );
            assert forall|i: int, j: int| 0 <= i < j < w.len() implies #[trigger] w[i]
                != #[trigger] w[j] by {
                if j == w.len() - 1 {
                    assert(w[j] == l);
                    assert(w[i] == v[i]);
                    assert(v.contains(v[i]));
                } else {
                    assert(w[i] == v[i] && w[j] == v[j]);
                }
            }
            assert forall|i: int| 0 <= i < w.len() implies {
                &&& (#[trigger] w[i]).len() > 0
                &&& !inutil(w[i])
                &&& w[i].len() <= 30
            } by {
                if i < v.len() {
                    assert(w[i] == v[i]);
                }
            }
        }
    }
}

/// Lo que queda de una sugerencia del modelo: un título de 60 caracteres
/// como mucho y hasta cuatro etiquetas, cada una con algo, útil, de 30
/// caracteres como mucho y distinta de las demás.
pub proof fn ley_sugerencia_limpia(titulo: Seq<char>, etiquetas: Seq<Seq<char>>)
    ensures
        limpiar_spec(titulo, etiquetas).0.len() <= 60,
        limpiar_spec(titulo, etiquetas).1.len() <= 4,
        forall|i: int|
            0 <= i < limpiar_spec(titulo, etiquetas).1.len() ==> {
                &&& (#[trigger] limpiar_spec(titulo, etiquetas).1[i]).len() > 0
                &&& !inutil(limpiar_spec(titulo, etiquetas).1[i])
                &&& limpiar_spec(titulo, etiquetas).1[i].len() <= 30
            },
        forall|i: int, j: int|
            0 <= i < j < limpiar_spec(titulo, etiquetas).1.len() ==> #[trigger] limpiar_spec(
                titulo,
                etiquetas,
            ).1[i] != #[trigger] limpiar_spec(titulo, etiquetas).1[j],
{
    lema_seleccion(etiquetas);
    let s = seleccion(etiquetas);
    let e = primeros(s, 4);
    assert(limpiar_spec(titulo, etiquetas).1 == e);
    assert forall|i: int| 0 <= i < e.len() implies #[trigger] e[i] == s[i] by {}
}

/// Un título de primer a tercer nivel baja a cuarto: una línea bajada nunca
/// es un título de esos niveles.
pub proof fn ley_linea_bajada(l: Seq<char>)
    ensures
        ({
            let r = linea_bajada(l);
            let n = almohadillas(r);
            !(1 <= n < 4 && n < r.len() && r[n] == ' ')
        }),
{
    let n = almohadillas(l);
    if 1 <= n < 4 && n < l.len() && l[n] == ' ' {
        let resto = l.skip(n);
        let r = seq!['#', '#', '#', '#'] + resto;
        assert(r.drop_first().drop_first().drop_first().drop_first() =~= resto);
        assert(resto[0] == ' ');
        assert(sin_inicio(resto, Clase::Almohadilla) == resto);
        assert(sin_inicio(r.drop_first().drop_first().drop_first(), Clase::Almohadilla) == resto);
        assert(sin_inicio(r.drop_first().drop_first(), Clase::Almohadilla) == resto);
        assert(sin_inicio(r.drop_first(), Clase::Almohadilla) == resto);
        assert(sin_inicio(r, Clase::Almohadilla) == resto);
    }
}

// ---------------------------------------------------------------------------
// Selecciones de notas y de roles.
// ---------------------------------------------------------------------------

/// Los ids de una selección: ninguno vacío, ninguno repetido, cada uno sale
/// (sin blancos) de uno pedido, y todo id pedido con algo está.
pub proof fn ley_ids_unicos(ids: Seq<Seq<char>>)
    ensures
        forall|i: int| 0 <= i < unicos(ids).len() ==> (#[trigger] unicos(ids)[i]).len() > 0,
        forall|i: int, j: int|
            0 <= i < j < unicos(ids).len() ==> #[trigger] unicos(ids)[i] != #[trigger] unicos(
                ids,
            )[j],
        forall|i: int|
            0 <= i < unicos(ids).len() ==> exists|k: int|
                0 <= k < ids.len() && #[trigger] unicos(ids)[i] == recortar(#[trigger] ids[k]),
        forall|k: int|
            0 <= k < ids.len() && recortar(ids[k]).len() > 0 ==> unicos(ids).contains(
                recortar(#[trigger] ids[k]),
            ),
    decreases ids.len(),
{
    if ids.len() > 0 {
        let a = ids.drop_last();
        ley_ids_unicos(a);
        let r = unicos(a);
        let t = recortar(ids.last());
        let u = unicos(ids);
        assert forall|i: int| 0 <= i < u.len() implies exists|k: int|
            0 <= k < ids.len() && #[trigger] u[i] == recortar(#[trigger] ids[k]) by {
            if i < r.len() {
                assert(u[i] == r[i]);
                let k = choose|k: int| 0 <= k < a.len() && r[i] == recortar(#[trigger] a[k]);
                assert(ids[k] == a[k]);
            } else {
                assert(u[i] == t);
                assert(ids[ids.len() - 1] == ids.last());
            }
        }
        assert forall|k: int| 0 <= k < ids.len() && recortar(ids[k]).len() > 0 implies u.contains(
            recortar(#[trigger] ids[k]),
        ) by {
            if k < a.len() {
                assert(ids[k] == a[k]);
                assert(r.contains(recortar(a[k])));
                let m = choose|m: int| 0 <= m < r.len() && r[m] == recortar(a[k]);
                if t.len() > 0 && !r.contains(t) {
                    assert(u[m] == r[m]);
                }
            } else {
                assert(ids[k] == ids.last());
                if !r.contains(t) {
                    assert(u[u.len() - 1] == t);
                }
            }
        }
        if t.len() > 0 && !r.contains(t) {
            assert forall|i: int, j: int| 0 <= i < j < u.len() implies #[trigger] u[i]
                != #[trigger] u[j] by {
                if j == u.len() - 1 {
                    assert(u[i] == r[i]);
                    assert(r.contains(r[i]));
                } else {
                    assert(u[i] == r[i] && u[j] == r[j]);
                }
            }
            assert forall|i: int| 0 <= i < u.len() implies (#[trigger] u[i]).len() > 0 by {
                if i < r.len() {
                    assert(u[i] == r[i]);
                }
            }
        }
    }
}

/// Un documento sale de 1 a 20 notas distintas.
pub proof fn ley_notas_pedidas(ids: Seq<Seq<char>>)
    ensures
        notas_pedidas_spec(ids) matches Ok(u) ==> {
            &&& 1 <= u.len() <= MAXIMO_NOTAS_DOCUMENTO
            &&& forall|i: int, j: int| 0 <= i < j < u.len() ==> #[trigger] u[i] != #[trigger] u[j]
        },
{
    ley_ids_unicos(ids);
}

/// Lo que resuelve cada id, en el mismo orden y con el mismo id.
pub proof fn lema_resueltos(ids: Seq<Seq<char>>, propios: Seq<RolCopia>)
    ensures
        resueltos(ids, propios) matches Ok(rs) ==> {
            &&& rs.len() == ids.len()
            &&& forall|i: int| 0 <= i < rs.len() ==> (#[trigger] rs[i]).0 == ids[i]
        },
    decreases ids.len(),
{
    if ids.len() > 0 {
        lema_resueltos(ids.drop_last(), propios);
        match resueltos(ids, propios) {
            Ok(rs) => {
                assert forall|i: int| 0 <= i < rs.len() implies (#[trigger] rs[i]).0 == ids[i] by {
                    if i < ids.len() - 1 {
                        assert(ids.drop_last()[i] == ids[i]);
                    }
                }
            },
            Err(_) => {},
        }
    }
}

/// Un informe lleva de 1 a 8 roles, sin repetir ninguno, y cada uno es uno
/// de los pedidos.
pub proof fn ley_roles_pedidos(ids: Seq<Seq<char>>, propios: Seq<RolCopia>)
    ensures
        roles_pedidos_spec(ids, propios) matches Ok(rs) ==> {
            &&& 1 <= rs.len() <= MAXIMO_ROLES
            &&& forall|i: int, j: int| 0 <= i < j < rs.len() ==> (#[trigger] rs[i]).0 != (
            #[trigger] rs[j]).0
            &&& forall|i: int|
                0 <= i < rs.len() ==> exists|k: int|
                    0 <= k < ids.len() && (#[trigger] rs[i]).0 == recortar(#[trigger] ids[k])
        },
{
    let v = unicos(ids);
    ley_ids_unicos(ids);
    lema_resueltos(v, propios);
    match roles_pedidos_spec(ids, propios) {
        Ok(rs) => {
            assert(resueltos(v, propios) == Ok::<
                Seq<(Seq<char>, Seq<char>, Seq<char>, Seq<char>)>,
                Seq<char>,
            >(rs));
            assert forall|i: int, j: int| 0 <= i < j < rs.len() implies (#[trigger] rs[i]).0 != (
            #[trigger] rs[j]).0 by {
                assert(rs[i].0 == v[i] && rs[j].0 == v[j]);
            }
            assert forall|i: int| 0 <= i < rs.len() implies exists|k: int|
                0 <= k < ids.len() && (#[trigger] rs[i]).0 == recortar(#[trigger] ids[k]) by {
                assert(rs[i].0 == v[i]);
            }
        },
        Err(_) => {},
    }
}

/// Reintentar un informe rehace justo los roles que no están hechos: todos
/// ellos, ninguno de los hechos, en su orden y sin repetir.
pub proof fn ley_por_hacer(estados: Seq<Seq<char>>)
    ensures
        forall|i: int|
            0 <= i < por_hacer(estados).len() ==> 0 <= #[trigger] por_hacer(estados)[i]
                < estados.len() && estados[por_hacer(estados)[i]] != "hecho"@,
        forall|x: int| 0 <= x < estados.len() && estados[x] != "hecho"@ ==> #[trigger] por_hacer(
            estados,
        ).contains(x),
        forall|i: int, j: int|
            0 <= i < j < por_hacer(estados).len() ==> #[trigger] por_hacer(estados)[i]
                < #[trigger] por_hacer(estados)[j],
    decreases estados.len(),
{
    if estados.len() > 0 {
        let a = estados.drop_last();
        ley_por_hacer(a);
        let r = por_hacer(a);
        let u = por_hacer(estados);
        assert forall|i: int| 0 <= i < u.len() implies 0 <= #[trigger] u[i] < estados.len()
            && estados[u[i]] != "hecho"@ by {
            if i < r.len() {
                assert(u[i] == r[i]);
                assert(estados[r[i]] == a[r[i]]);
            }
        }
        assert forall|x: int| 0 <= x < estados.len() && estados[x] != "hecho"@ implies #[trigger] u.contains(
            x,
        ) by {
            if x < a.len() {
                assert(a[x] == estados[x]);
                assert(r.contains(x));
                let m = choose|m: int| 0 <= m < r.len() && r[m] == x;
                if estados.last() != "hecho"@ {
                    assert(u == r.push(estados.len() - 1));
                    assert(u[m] == r[m]);
                } else {
                    assert(u == r);
                }
                assert(u[m] == x);
            } else {
                assert(u[u.len() - 1] == x);
            }
        }
        assert forall|i: int, j: int| 0 <= i < j < u.len() implies #[trigger] u[i] < #[trigger] u[j] by {
            if j < r.len() {
                assert(u[i] == r[i] && u[j] == r[j]);
            } else {
                assert(u[i] == r[i]);
            }
        }
    }
}

// ---------------------------------------------------------------------------
// Órdenes.
// ---------------------------------------------------------------------------

/// Un orden de `n` elementos los pone todos, cada uno una sola vez.
pub proof fn ley_orden_permutacion(k: Seq<(int, Seq<char>)>, desc: bool, p: Seq<int>, n: int)
    requires
        ordenados(k, desc, p, n),
        n <= k.len(),
    ensures
        p.no_duplicates(),
        forall|x: int| 0 <= x < n ==> p.contains(x),
{
    assert forall|a: int, b: int| 0 <= a < p.len() && 0 <= b < p.len() && a != b implies p[a]
        != p[b] by {
        if p[a] == p[b] {
            let x = p[a];
            if a < b {
                assert(precede(k, desc, p[a], p[b]));
            } else {
                assert(precede(k, desc, p[b], p[a]));
            }
            lema_texto_irreflexivo(k[x].1);
        }
    }
    let s = p.to_set();
    p.unique_seq_to_set();
    let rango = vstd::set_lib::set_int_range(0, n);
    vstd::set_lib::lemma_int_range(0, n);
    assert(s.subset_of(rango)) by {
        assert forall|x: int| s.contains(x) implies rango.contains(x) by {
            let a = choose|a: int| 0 <= a < p.len() && p[a] == x;
        }
    }
    vstd::set_lib::lemma_len_subset(s, rango);
    vstd::set_lib::lemma_subset_equality(s, rango);
    assert forall|x: int| 0 <= x < n implies p.contains(x) by {
        assert(rango.contains(x));
        assert(s.contains(x));
    }
}

// ---------------------------------------------------------------------------
// Números y nombres.
// ---------------------------------------------------------------------------

/// Cada cifra vale lo que dice.
pub proof fn lema_digito(d: int)
    requires
        0 <= d < 10,
    ensures
        digito(d) as int - '0' as int == d,
        es_cifra(digito(d)),
{
}

/// Leer lo que escribe `decimal` devuelve el mismo número.
pub proof fn ley_decimal(n: nat)
    ensures
        decimal(n).len() >= 1,
        solo_cifras(decimal(n)),
        valor(decimal(n)) == n,
    decreases n,
{
    if n < 10 {
        lema_digito(n as int);
        assert(decimal(n).drop_last() =~= Seq::<char>::empty());
        assert(valor(decimal(n)) == valor(Seq::<char>::empty()) * 10 + (decimal(n).last() as int
            - '0' as int));
    } else {
        ley_decimal(n / 10);
        lema_digito((n % 10) as int);
        let d = decimal(n / 10);
        let r = decimal(n);
        assert(r == d.push(digito((n % 10) as int)));
        assert(r.drop_last() =~= d);
        assert(r.last() == digito((n % 10) as int));
        assert(valor(r) == valor(d) * 10 + (r.last() as int - '0' as int));
        assert((n / 10) * 10 + n % 10 == n);
        assert forall|i: int| 0 <= i < r.len() implies es_cifra(#[trigger] r[i]) by {
            if i < d.len() {
                assert(r[i] == d[i]);
            }
        }
    }
}

/// Dos números distintos se escriben distinto.
pub proof fn ley_decimal_inyectiva(a: nat, b: nat)
    ensures
        decimal(a) == decimal(b) ==> a == b,
{
    ley_decimal(a);
    ley_decimal(b);
}

/// Al subir una subcarpeta a principal, cada intento prueba un nombre
/// distinto: el suyo, con el del padre, y después numerado.
pub proof fn ley_candidatos_distintos(hija: Seq<char>, padre: Seq<char>, n: nat, m: nat)
    requires
        1 <= n < m,
    ensures
        candidato_spec(hija, padre, n) != candidato_spec(hija, padre, m),
{
    let cn = candidato_spec(hija, padre, n);
    let cm = candidato_spec(hija, padre, m);
    ley_decimal(m);
    ley_decimal(n);
    if n >= 3 {
        let base = hija + " ("@ + padre + ") "@;
        assert(cn == base + decimal(n));
        assert(cm == base + decimal(m));
        if cn == cm {
            assert(cn.skip(base.len() as int) =~= decimal(n));
            assert(cm.skip(base.len() as int) =~= decimal(m));
            ley_decimal_inyectiva(n, m);
        }
    } else if n == 2 {
        assert(cn.len() == hija.len() + padre.len() + 3) by {
            reveal_strlit(" (");
            reveal_strlit(")");
        }
        assert(cm.len() >= hija.len() + padre.len() + 5) by {
            reveal_strlit(" (");
            reveal_strlit(") ");
        }
    } else {
        assert(cn == hija);
        assert(cm.len() > hija.len()) by {
            reveal_strlit(" (");
            reveal_strlit(")");
            reveal_strlit(") ");
        }
    }
}

/// Un nombre de proyecto válido tiene de 1 a 60 caracteres.
pub proof fn ley_nombre_valido(nombre: Seq<char>)
    ensures
        nombre_valido_spec(nombre) matches Ok(n) ==> 1 <= n.len() <= 60,
{
}

/// Una vocal con tilde, grave, diéresis o circunfleja.
pub open spec fn con_acento(c: char) -> bool {
    c == 'á' || c == 'à' || c == 'ä' || c == 'â' || c == 'é' || c == 'è' || c == 'ë' || c == 'ê'
        || c == 'í' || c == 'ì' || c == 'ï' || c == 'î' || c == 'ó' || c == 'ò' || c == 'ö'
        || c == 'ô' || c == 'ú' || c == 'ù' || c == 'ü' || c == 'û'
}

/// La clave de un nombre no lleva vocales acentuadas, y quitar acentos dos
/// veces es quitarlos una.
pub proof fn ley_clave_sin_acentos(s: Seq<char>)
    ensures
        forall|i: int| 0 <= i < clave_spec(s).len() ==> !con_acento(#[trigger] clave_spec(s)[i]),
        forall|c: char| #[trigger] sin_acento(sin_acento(c)) == sin_acento(c),
{
}

/// Un rol propio válido tiene un nombre de 1 a 30 caracteres, un icono de
/// 1 a 8 y un enfoque de 1 a 600.
pub proof fn ley_rol_valido(nombre: Seq<char>, icono: Seq<char>, enfoque: Seq<char>)
    ensures
        rol_valido_spec(nombre, icono, enfoque) matches Ok((n, i, e)) ==> {
            &&& 1 <= n.len() <= 30
            &&& 1 <= i.len() <= 8
            &&& 1 <= e.len() <= 600
        },
{
    reveal_strlit("🧪");
}

/// Un documento siempre tiene título mientras el modelo no le da el suyo,
/// salvo que salga de una sola nota sin título.
pub proof fn ley_titulo_provisional(titulos: Seq<Seq<char>>)
    requires
        titulos.len() != 1 || titulos[0].len() > 0,
    ensures
        titulo_provisional_spec(titulos).len() > 0,
{
    reveal_strlit("Documento");
    reveal_strlit(" y una nota mas");
    reveal_strlit(" notas mas");
}

/// El título de respaldo de una nota sale de su primera frase `p`: si tiene
/// hasta 60 caracteres queda entera; si es más larga se corta (en el último
/// espacio de sus 60 primeros caracteres, o a los 59 si no hay espacio) y
/// acaba en `…`. El corte nunca pasa de 60 caracteres, y el título tampoco
/// si la primera letra se escribe en mayúscula con un solo carácter.
pub proof fn ley_titulo_respaldo(contenido: Seq<char>)
    ensures
        primera_frase(contenido).len() <= 60 ==> recorte_titulo(primera_frase(contenido))
            == primera_frase(contenido),
        primera_frase(contenido).len() > 60 ==> recorte_titulo(primera_frase(contenido)).last()
            == '…',
        recorte_titulo(primera_frase(contenido)).len() <= 60,
        recorte_titulo(primera_frase(contenido)).len() == 0 || mayuscula(
            recorte_titulo(primera_frase(contenido))[0],
        ).len() == 1 ==> titulo_respaldo_spec(contenido).len() <= 60,
{
    let p = primera_frase(contenido);
    if p.len() > 60 {
        lema_ultima_posicion(p.take(60), ' ');
    }
    reveal_strlit("Nota sin título");
}

// ---------------------------------------------------------------------------
// Marcas de tiempo de la transcripción.
// ---------------------------------------------------------------------------

/// Unas cifras escritas se leen como el número que valen, no tienen blancos
/// que recortar y no contienen ni `:` ni `]`.
proof fn lema_cifras_leidas(d: Seq<char>, k: nat)
    requires
        solo_cifras(d),
        d.len() >= 1,
        valor(d) == k,
        k <= u64::MAX,
    ensures
        recortar(d) == d,
        leer_u64(recortar(d)) == Some(k as u64),
        !d.contains(':'),
        !d.contains(']'),
{
    reveal(blanco);
    assert(es_cifra(d[0]));
    assert(es_cifra(d[d.len() - 1]));
    assert(sin_inicio(d, Clase::Blanco) == d);
    assert(sin_fin(d, Clase::Blanco) == d);
    assert forall|i: int| 0 <= i < d.len() implies #[trigger] d[i] != ':' && d[i] != ']' by {
        assert(es_cifra(d[i]));
    }
}

/// `dos_cifras` escribe cifras que valen el número.
proof fn lema_dos_cifras(k: nat)
    ensures
        dos_cifras(k).len() >= 1,
        solo_cifras(dos_cifras(k)),
        valor(dos_cifras(k)) == k,
{
    if k < 10 {
        lema_digito(k as int);
        lema_digito(0);
        let d = dos_cifras(k);
        let z = seq!['0'];
        assert(d.drop_last() =~= z);
        assert(z.drop_last() =~= Seq::<char>::empty());
        assert(z.last() == '0');
        assert(valor(z) == valor(z.drop_last()) * 10 + (z.last() as int - '0' as int));
        assert(valor(z) == 0);
        assert(valor(d) == valor(d.drop_last()) * 10 + (d.last() as int - '0' as int));
        assert forall|i: int| 0 <= i < d.len() implies es_cifra(#[trigger] d[i]) by {}
    } else {
        ley_decimal(k);
    }
}

/// Lo que se añade al final sin el separador cae en el último trozo.
proof fn lema_trozos_anadir(x: Seq<char>, y: Seq<char>, c: char)
    requires
        !y.contains(c),
    ensures
        trozos_y_resto(x + y, c) == (trozos_y_resto(x, c).0, trozos_y_resto(x, c).1 + y),
    decreases y.len(),
{
    if y.len() == 0 {
        assert(x + y =~= x);
        assert(trozos_y_resto(x, c).1 + y =~= trozos_y_resto(x, c).1);
    } else {
        let y0 = y.drop_last();
        assert(!y0.contains(c)) by {
            if y0.contains(c) {
                let j = choose|j: int| 0 <= j < y0.len() && y0[j] == c;
                assert(y[j] == c);
            }
        }
        lema_trozos_anadir(x, y0, c);
        assert((x + y).drop_last() =~= x + y0);
        assert((x + y).last() == y.last());
        assert(y.last() != c) by {
            assert(y[y.len() - 1] == y.last());
        }
        assert((trozos_y_resto(x, c).1 + y0).push(y.last()) =~= trozos_y_resto(x, c).1 + y);
    }
}

/// El separador cierra el trozo que estaba a medias.
proof fn lema_trozos_corte(x: Seq<char>, c: char)
    ensures
        trozos_y_resto(x.push(c), c) == (
            trozos_y_resto(x, c).0.push(trozos_y_resto(x, c).1),
            Seq::<char>::empty(),
        ),
{
    assert(x.push(c).drop_last() =~= x);
}

/// Trozos de un texto hecho de partes sin el separador, unidas por él.
proof fn lema_trozos_partes(a: Seq<char>, b: Seq<char>, e: Seq<char>, c: char)
    requires
        !a.contains(c),
        !b.contains(c),
        !e.contains(c),
    ensures
        trozos(a + seq![c] + b, c) == seq![a, b],
        trozos(a + seq![c] + b + seq![c] + e, c) == seq![a, b, e],
{
    let vacio = Seq::<char>::empty();
    assert(vacio + a =~= a);
    lema_trozos_anadir(vacio, a, c);
    assert(trozos_y_resto(vacio, c) == (Seq::<Seq<char>>::empty(), vacio));
    assert(vacio + a =~= a);
    assert(trozos_y_resto(a, c) == (Seq::<Seq<char>>::empty(), a));
    lema_trozos_corte(a, c);
    assert(a + seq![c] =~= a.push(c));
    lema_trozos_anadir(a.push(c), b, c);
    assert(vacio + b =~= b);
    assert(trozos_y_resto(a + seq![c] + b, c) == (seq![a], b));
    assert(trozos(a + seq![c] + b, c) =~= seq![a, b]);
    lema_trozos_corte(a + seq![c] + b, c);
    assert(a + seq![c] + b + seq![c] =~= (a + seq![c] + b).push(c));
    lema_trozos_anadir(a + seq![c] + b + seq![c], e, c);
    assert(trozos_y_resto(a + seq![c] + b + seq![c] + e, c) == (seq![a, b], vacio + e));
    assert(vacio + e =~= e);
    assert(trozos(a + seq![c] + b + seq![c] + e, c) =~= seq![a, b, e]);
}

/// Lo que escribe `reloj_spec` son cifras y `:`.
pub open spec fn de_reloj(c: char) -> bool {
    es_cifra(c) || c == ':'
}

/// Lo que escribe `reloj_spec`, partido por `:`, da segundos iguales al
/// número escrito; solo lleva cifras y `:`.
proof fn lema_reloj_leido(s: nat)
    requires
        s <= u64::MAX,
    ensures
        valor_marca(trozos(reloj_spec(s), ':')) == Some(s as int),
        forall|j: int| 0 <= j < reloj_spec(s).len() ==> de_reloj(#[trigger] reloj_spec(s)[j]),
{
    let r = reloj_spec(s);
    if s >= 3600 {
        let h = s / 3600;
        let m = (s % 3600) / 60;
        let x = s % 60;
        ley_decimal(h);
        lema_dos_cifras(m);
        lema_dos_cifras(x);
        lema_cifras_leidas(decimal(h), h);
        lema_cifras_leidas(dos_cifras(m), m);
        lema_cifras_leidas(dos_cifras(x), x);
        lema_trozos_partes(decimal(h), dos_cifras(m), dos_cifras(x), ':');
        assert(r == decimal(h) + seq![':'] + dos_cifras(m) + seq![':'] + dos_cifras(x));
        assert(h * 3600 + m * 60 + x == s) by (nonlinear_arith)
            requires
                h == s / 3600,
                m == (s % 3600) / 60,
                x == s % 60,
        ;
        let n1 = decimal(h).len() as int;
        let n2 = dos_cifras(m).len() as int;
        assert forall|j: int| 0 <= j < r.len() implies de_reloj(#[trigger] r[j]) by {
            if j < n1 {
                assert(r[j] == decimal(h)[j]);
            } else if j == n1 {
            } else if j < n1 + 1 + n2 {
                assert(r[j] == dos_cifras(m)[j - n1 - 1]);
            } else if j == n1 + 1 + n2 {
            } else {
                assert(r[j] == dos_cifras(x)[j - n1 - 2 - n2]);
            }
        }
    } else {
        let m = s / 60;
        let x = s % 60;
        lema_dos_cifras(m);
        lema_dos_cifras(x);
        lema_cifras_leidas(dos_cifras(m), m);
        lema_cifras_leidas(dos_cifras(x), x);
        lema_trozos_partes(dos_cifras(m), dos_cifras(x), Seq::<char>::empty(), ':');
        assert(r == dos_cifras(m) + seq![':'] + dos_cifras(x));
        assert(m * 60 + x == s);
        let n1 = dos_cifras(m).len() as int;
        assert forall|j: int| 0 <= j < r.len() implies de_reloj(#[trigger] r[j]) by {
            if j < n1 {
                assert(r[j] == dos_cifras(m)[j]);
            } else if j == n1 {
            } else {
                assert(r[j] == dos_cifras(x)[j - n1 - 1]);
            }
        }
    }
}

/// Una marca escrita se vuelve a leer: una línea que empieza por `[`, la
/// hora de `s` segundos y `]` lleva la marca de `s` segundos, y lo que sigue
/// queda tal cual.
pub proof fn ley_marca_leida(s: nat, tras: Seq<char>)
    requires
        s <= u64::MAX,
    ensures
        marca(seq!['['] + reloj_spec(s) + seq![']'] + tras) == Some((s as int, tras)),
{
    let r = reloj_spec(s);
    let l = seq!['['] + r + seq![']'] + tras;
    lema_reloj_leido(s);
    reveal(blanco);
    assert(l[0] == '[');
    assert(sin_inicio(l, Clase::Blanco) == l);
    let resto = l.drop_first();
    assert(resto =~= r + seq![']'] + tras);
    let p = r.len() as int;
    assert(posicion(r, ']') == -1) by {
        lema_posicion(r, ']');
        if posicion(r, ']') >= 0 {
            assert(r[posicion(r, ']')] == ']');
            assert(de_reloj(r[posicion(r, ']')]));
        }
    }
    assert(resto.take(p + 1) =~= r.push(']'));
    assert(r.push(']').drop_last() =~= r);
    assert(posicion(resto.take(p + 1), ']') == p);
    lema_posicion_prefijo(resto, ']', p);
    assert(resto.take(p) =~= r);
    assert(resto.skip(p + 1) =~= tras);
}

/// Llevar una línea con marca `a` segundos y después `b` más es llevarla
/// `a + b` de una vez, mientras el tiempo quepa en `u64`.
pub proof fn ley_desplazar_dos_veces(l: Seq<char>, a: nat, b: nat)
    requires
        marca(l) matches Some((s, _)) && s + a + b <= u64::MAX,
    ensures
        linea_desplazada(linea_desplazada(l, a as int), b as int) == linea_desplazada(
            l,
            (a + b) as int,
        ),
{
    let (s, tras) = marca(l)->0;
    ley_marca_leida((s + a) as nat, tras);
}

// ---------------------------------------------------------------------------
// Bordes de una línea.
// ---------------------------------------------------------------------------

/// Lo que `sin_fin` deja acaba en un carácter de fuera de la clase, y lo que
/// quita es todo de la clase.
proof fn lema_sin_fin_bordes(s: Seq<char>, k: Clase)
    ensures
        sin_fin(s, k).len() <= s.len(),
        sin_fin(s, k) == s.take(sin_fin(s, k).len() as int),
        sin_fin(s, k).len() > 0 ==> !en_clase(k, sin_fin(s, k).last()),
        forall|j: int| sin_fin(s, k).len() <= j < s.len() ==> en_clase(k, #[trigger] s[j]),
    decreases s.len(),
{
    lema_sin_fin_es_prefijo(s, k);
    assert(s.subrange(0, sin_fin(s, k).len() as int) =~= s.take(sin_fin(s, k).len() as int));
    if s.len() > 0 && en_clase(k, s.last()) {
        lema_sin_fin_bordes(s.drop_last(), k);
        assert forall|j: int| sin_fin(s, k).len() <= j < s.len() implies en_clase(
            k,
            #[trigger] s[j],
        ) by {
            if j < s.len() - 1 {
                assert(s.drop_last()[j] == s[j]);
            }
        }
    }
}

/// Lo que `sin_inicio` deja empieza por un carácter de fuera de la clase, y
/// lo que quita es todo de la clase.
proof fn lema_sin_inicio_bordes(s: Seq<char>, k: Clase)
    ensures
        sin_inicio(s, k).len() <= s.len(),
        sin_inicio(s, k) == s.skip(s.len() - sin_inicio(s, k).len()),
        sin_inicio(s, k).len() > 0 ==> !en_clase(k, sin_inicio(s, k)[0]),
        forall|j: int| 0 <= j < s.len() - sin_inicio(s, k).len() ==> en_clase(k, #[trigger] s[j]),
    decreases s.len(),
{
    lema_sin_inicio_es_sufijo(s, k);
    assert(s.subrange(s.len() - sin_inicio(s, k).len(), s.len() as int) =~= s.skip(
        s.len() - sin_inicio(s, k).len(),
    ));
    if s.len() > 0 && en_clase(k, s[0]) {
        lema_sin_inicio_bordes(s.drop_first(), k);
        assert forall|j: int| 0 <= j < s.len() - sin_inicio(s, k).len() implies en_clase(
            k,
            #[trigger] s[j],
        ) by {
            if j > 0 {
                assert(s.drop_first()[j - 1] == s[j]);
            }
        }
    }
}

/// Quitar lo de una clase al final dos veces es quitarlo una.
proof fn lema_sin_fin_fijo(s: Seq<char>, k: Clase)
    ensures
        sin_fin(sin_fin(s, k), k) == sin_fin(s, k),
{
    lema_sin_fin_bordes(s, k);
}

/// Lo que se pega detrás no cambia dónde empieza un texto que acaba fuera
/// de la clase.
proof fn lema_sin_inicio_pegado(u: Seq<char>, w: Seq<char>, k: Clase)
    requires
        u.len() > 0,
        !en_clase(k, u.last()),
    ensures
        sin_inicio(u + w, k) == sin_inicio(u, k) + w,
    decreases u.len(),
{
    if en_clase(k, u[0]) {
        assert(u.len() > 1);
        assert(u.drop_first().last() == u.last());
        lema_sin_inicio_pegado(u.drop_first(), w, k);
        assert((u + w).drop_first() =~= u.drop_first() + w);
        assert((u + w)[0] == u[0]);
    } else {
        assert((u + w)[0] == u[0]);
    }
}

/// Con un carácter de fuera de la clase, quitar los bordes deja algo.
pub(crate) proof fn lema_bordes_con_algo(s: Seq<char>, k: Clase, j: int)
    requires
        0 <= j < s.len(),
        !en_clase(k, s[j]),
    ensures
        sin_fin(sin_inicio(s, k), k).len() > 0,
{
    lema_sin_inicio_bordes(s, k);
    let v = sin_inicio(s, k);
    let off = s.len() - v.len();
    assert(j >= off);
    assert(v[j - off] == s[j]);
    lema_sin_fin_bordes(v, k);
    if sin_fin(v, k).len() == 0 {
        assert(en_clase(k, v[j - off]));
    }
}

/// Si `c` está en `p` y no antes, la primera `c` de `s` está en `p`.
proof fn lema_posicion_en(s: Seq<char>, c: char, p: int)
    requires
        0 <= p < s.len(),
        s[p] == c,
        forall|j: int| 0 <= j < p ==> s[j] != c,
    ensures
        posicion(s, c) == p,
    decreases s.len(),
{
    if s.len() > p + 1 {
        assert(s.drop_last()[p] == c);
        assert forall|j: int| 0 <= j < p implies s.drop_last()[j] != c by {
            assert(s.drop_last()[j] == s[j]);
        }
        lema_posicion_en(s.drop_last(), c, p);
    } else {
        let d = s.drop_last();
        lema_posicion(d, c);
        if posicion(d, c) >= 0 {
            assert(d[posicion(d, c)] == s[posicion(d, c)]);
        }
    }
}

/// Quitar los blancos del final no crea una marca: si la línea recortada
/// tiene marca, la línea entera también.
proof fn lema_marca_sin_fin(l: Seq<char>)
    ensures
        marca(sin_fin(l, Clase::Blanco)) is Some ==> marca(l) is Some,
{
    let u = sin_fin(l, Clase::Blanco);
    if marca(u) is Some {
        lema_sin_fin_bordes(l, Clase::Blanco);
        let w = l.skip(u.len() as int);
        assert(l =~= u + w);
        assert(u.len() > 0);
        lema_sin_inicio_pegado(u, w, Clase::Blanco);
        let tu = sin_inicio(u, Clase::Blanco);
        let tl = sin_inicio(l, Clase::Blanco);
        assert(tl == tu + w);
        assert(tl[0] == tu[0]);
        let ru = tu.drop_first();
        let rl = tl.drop_first();
        assert(rl =~= ru + w);
        let p = posicion(ru, ']');
        lema_posicion(ru, ']');
        assert(rl[p] == ru[p]);
        assert forall|j: int| 0 <= j < p implies rl[j] != ']' by {
            assert(rl[j] == ru[j]);
        }
        lema_posicion_en(rl, ']', p);
        assert(rl.take(p) =~= ru.take(p));
    }
}

/// Una línea con contenido sigue teniéndolo al desplazarla, y desplazarla
/// dos veces es desplazarla la suma, si su marca no se sale de `u64`.
proof fn lema_linea_dos_veces(l: Seq<char>, a: nat, b: nat)
    requires
        con_contenido(l),
        marca(l) matches Some((s, _)) ==> s + a + b <= u64::MAX,
    ensures
        con_contenido(linea_desplazada(l, a as int)),
        linea_desplazada(linea_desplazada(l, a as int), b as int) == linea_desplazada(
            l,
            (a + b) as int,
        ),
{
    match marca(l) {
        Some((s, tras)) => {
            ley_desplazar_dos_veces(l, a, b);
            let l2 = seq!['['] + reloj_spec((s + a) as nat) + seq![']'] + tras;
            assert(linea_desplazada(l, a as int) == l2);
            reveal(blanco);
            assert(l2[0] == '[');
            lema_bordes_con_algo(l2, Clase::Blanco, 0);
        },
        None => {
            let u = sin_fin(l, Clase::Blanco);
            lema_marca_sin_fin(l);
            lema_sin_fin_fijo(l, Clase::Blanco);
            lema_sin_inicio_bordes(l, Clase::Blanco);
            let v = sin_inicio(l, Clase::Blanco);
            let off = l.len() - v.len();
            lema_sin_fin_es_prefijo(v, Clase::Blanco);
            assert(v.len() > 0);
            assert(v[0] == l[off]);
            lema_sin_fin_bordes(l, Clase::Blanco);
            assert(off < u.len());
            assert(u[off] == l[off]);
            lema_bordes_con_algo(u, Clase::Blanco, off);
        },
    }
}

/// Lo que sigue a una marca es el final de la línea.
proof fn lema_marca_sufijo(l: Seq<char>)
    ensures
        marca(l) matches Some((s, tras)) ==> tras.len() <= l.len() && tras == l.skip(
            l.len() - tras.len(),
        ),
{
    if let Some((s, tras)) = marca(l) {
        lema_sin_inicio_bordes(l, Clase::Blanco);
        let tl = sin_inicio(l, Clase::Blanco);
        let off = l.len() - tl.len();
        let resto = tl.drop_first();
        let p = posicion(resto, ']');
        lema_posicion(resto, ']');
        assert(tras == resto.skip(p + 1));
        assert(tras =~= l.skip(off + 1 + p + 1));
    }
}

/// Si la marca de una línea cabe en `u64` después de sumarle `d` segundos.
pub open spec fn marca_cabe(l: Seq<char>, d: int) -> bool {
    marca(l) matches Some((s, _)) ==> s + d <= u64::MAX
}

/// Desplazar las líneas dos veces es desplazarlas la suma.
proof fn lema_desplazadas_dos_veces(ls: Seq<Seq<char>>, a: nat, b: nat)
    requires
        forall|i: int| 0 <= i < ls.len() ==> #[trigger] marca_cabe(ls[i], (a + b) as int),
    ensures
        desplazadas(desplazadas(ls, a as int), b as int) == desplazadas(ls, (a + b) as int),
    decreases ls.len(),
{
    if ls.len() > 0 {
        let ls0 = ls.drop_last();
        let l = ls.last();
        assert forall|i: int| 0 <= i < ls0.len() implies #[trigger] marca_cabe(ls0[i], (a + b) as int) by {
            assert(ls0[i] == ls[i]);
            assert(marca_cabe(ls[i], (a + b) as int));
        }
        lema_desplazadas_dos_veces(ls0, a, b);
        if con_contenido(l) {
            assert(marca_cabe(ls[ls.len() - 1], (a + b) as int));
            lema_linea_dos_veces(l, a, b);
            let d = desplazadas(ls, a as int);
            assert(d.drop_last() =~= desplazadas(ls0, a as int));
            assert(d.last() == linea_desplazada(l, a as int));
        }
    }
}

/// Las líneas desplazadas no tienen caracteres que no tuvieran las de
/// partida, salvo los de la marca, y ninguna está vacía.
proof fn lema_desplazadas_limpias(ls: Seq<Seq<char>>, d: nat, c: char)
    requires
        forall|i: int| 0 <= i < ls.len() ==> !(#[trigger] ls[i]).contains(c),
        !de_reloj(c),
        c != '[',
        c != ']',
    ensures
        forall|i: int|
            0 <= i < desplazadas(ls, d as int).len() ==> !(#[trigger] desplazadas(
                ls,
                d as int,
            )[i]).contains(c) && desplazadas(ls, d as int)[i].len() > 0,
    decreases ls.len(),
{
    if ls.len() > 0 {
        let ls0 = ls.drop_last();
        let l = ls.last();
        assert forall|i: int| 0 <= i < ls0.len() implies !(#[trigger] ls0[i]).contains(c) by {
            assert(ls0[i] == ls[i]);
        }
        lema_desplazadas_limpias(ls0, d, c);
        assert(!ls[ls.len() - 1].contains(c));
        if con_contenido(l) {
            let x = linea_desplazada(l, d as int);
            assert(!x.contains(c) && x.len() > 0) by {
                match marca(l) {
                    Some((s, tras)) => {
                        if s + d <= u64::MAX {
                            let r = reloj_spec((s + d) as nat);
                            lema_reloj_leido((s + d) as nat);
                            lema_marca_sufijo(l);
                            assert(x == seq!['['] + r + seq![']'] + tras);
                            if x.contains(c) {
                                let j = choose|j: int| 0 <= j < x.len() && x[j] == c;
                                if 1 <= j < 1 + r.len() {
                                    assert(x[j] == r[j - 1]);
                                    assert(de_reloj(r[j - 1]));
                                } else if j >= 2 + r.len() {
                                    let k = j - 2 - r.len();
                                    assert(tras[k] == c);
                                    assert(l[l.len() - tras.len() + k] == c);
                                }
                            }
                        } else {
                            lema_sin_fin_bordes(l, Clase::Blanco);
                            lema_bordes_con_algo_inv(l);
                            if x.contains(c) {
                                let j = choose|j: int| 0 <= j < x.len() && x[j] == c;
                                assert(l[j] == c);
                            }
                        }
                    },
                    None => {
                        lema_sin_fin_bordes(l, Clase::Blanco);
                        lema_bordes_con_algo_inv(l);
                        if x.contains(c) {
                            let j = choose|j: int| 0 <= j < x.len() && x[j] == c;
                            assert(l[j] == c);
                        }
                    },
                }
            }
            let dd = desplazadas(ls, d as int);
            assert(dd.drop_last() =~= desplazadas(ls0, d as int));
            assert forall|i: int| 0 <= i < dd.len() implies !(#[trigger] dd[i]).contains(c)
                && dd[i].len() > 0 by {
                if i < dd.len() - 1 {
                    assert(dd[i] == desplazadas(ls0, d as int)[i]);
                }
            }
        }
    }
}

/// Una línea con contenido no se queda vacía al quitarle los blancos del
/// final.
proof fn lema_bordes_con_algo_inv(l: Seq<char>)
    requires
        con_contenido(l),
    ensures
        sin_fin(l, Clase::Blanco).len() > 0,
{
    lema_sin_inicio_bordes(l, Clase::Blanco);
    let v = sin_inicio(l, Clase::Blanco);
    let off = l.len() - v.len();
    lema_sin_fin_es_prefijo(v, Clase::Blanco);
    assert(v.len() > 0);
    assert(v[0] == l[off]);
    lema_sin_fin_bordes(l, Clase::Blanco);
    if sin_fin(l, Clase::Blanco).len() == 0 {
        assert(en_clase(Clase::Blanco, l[off]));
    }
}

/// Las líneas de un texto no tienen saltos, ni ningún carácter que el texto
/// no tenga.
proof fn lema_lineas_sin(s: Seq<char>, c: char)
    requires
        c == '\n' || !s.contains(c),
    ensures
        forall|i: int| 0 <= i < lineas(s).len() ==> !(#[trigger] lineas(s)[i]).contains(c),
{
    lema_lineas_y_resto_sin(s, c);
    let (ls, l) = lineas_y_resto(s);
    assert forall|i: int| 0 <= i < lineas(s).len() implies !(#[trigger] lineas(s)[i]).contains(
        c,
    ) by {
        if i < ls.len() {
            assert(lineas(s)[i] == ls[i]);
        }
    }
}

proof fn lema_lineas_y_resto_sin(s: Seq<char>, c: char)
    requires
        c == '\n' || !s.contains(c),
    ensures
        forall|i: int|
            0 <= i < lineas_y_resto(s).0.len() ==> !(#[trigger] lineas_y_resto(s).0[i]).contains(c),
        !lineas_y_resto(s).1.contains(c),
    decreases s.len(),
{
    if s.len() > 0 {
        let s0 = s.drop_last();
        assert(c == '\n' || !s0.contains(c)) by {
            if c != '\n' && s0.contains(c) {
                let j = choose|j: int| 0 <= j < s0.len() && s0[j] == c;
                assert(s[j] == c);
            }
        }
        lema_lineas_y_resto_sin(s0, c);
        let (ls, l) = lineas_y_resto(s0);
        if s.last() == '\n' {
            let x = sin_retorno(l);
            assert(!x.contains(c)) by {
                if x.contains(c) {
                    let j = choose|j: int| 0 <= j < x.len() && x[j] == c;
                    assert(l[j] == c);
                }
            }
            let r = lineas_y_resto(s).0;
            assert(r == ls.push(x));
            assert forall|i: int| 0 <= i < r.len() implies !(#[trigger] r[i]).contains(c) by {
                if i < ls.len() {
                    assert(r[i] == ls[i]);
                }
            }
        } else {
            assert(s.last() != c) by {
                assert(s[s.len() - 1] == s.last());
            }
            let x = l.push(s.last());
            assert(!x.contains(c)) by {
                if x.contains(c) {
                    let j = choose|j: int| 0 <= j < x.len() && x[j] == c;
                    if j < l.len() {
                        assert(l[j] == c);
                    }
                }
            }
        }
    }
}

/// Lo que se añade sin saltos cae en la línea a medias.
proof fn lema_lineas_anadir(x: Seq<char>, y: Seq<char>)
    requires
        !y.contains('\n'),
    ensures
        lineas_y_resto(x + y) == (lineas_y_resto(x).0, lineas_y_resto(x).1 + y),
    decreases y.len(),
{
    if y.len() == 0 {
        assert(x + y =~= x);
        assert(lineas_y_resto(x).1 + y =~= lineas_y_resto(x).1);
    } else {
        let y0 = y.drop_last();
        assert(!y0.contains('\n')) by {
            if y0.contains('\n') {
                let j = choose|j: int| 0 <= j < y0.len() && y0[j] == '\n';
                assert(y[j] == '\n');
            }
        }
        lema_lineas_anadir(x, y0);
        assert((x + y).drop_last() =~= x + y0);
        assert((x + y).last() == y.last());
        assert(y.last() != '\n') by {
            assert(y[y.len() - 1] == y.last());
        }
        assert((lineas_y_resto(x).1 + y0).push(y.last()) =~= lineas_y_resto(x).1 + y);
    }
}

/// Unas líneas sin saltos ni retornos, unidas con saltos, se leen tal cual:
/// todas cerradas menos la última.
proof fn lema_lineas_y_resto_unir(ls: Seq<Seq<char>>)
    requires
        ls.len() > 0,
        forall|i: int|
            0 <= i < ls.len() ==> !(#[trigger] ls[i]).contains('\n') && !ls[i].contains('\r'),
    ensures
        lineas_y_resto(unir(ls, seq!['\n'])) == (ls.drop_last(), ls.last()),
    decreases ls.len(),
{
    let vacio = Seq::<char>::empty();
    if ls.len() == 1 {
        assert(!ls[0].contains('\n'));
        lema_lineas_anadir(vacio, ls[0]);
        assert(vacio + ls[0] =~= ls[0]);
        assert(lineas_y_resto(vacio) == (Seq::<Seq<char>>::empty(), vacio));
        assert(ls.drop_last() =~= Seq::<Seq<char>>::empty());
    } else {
        let ls0 = ls.drop_last();
        assert forall|i: int| 0 <= i < ls0.len() implies !(#[trigger] ls0[i]).contains('\n')
            && !ls0[i].contains('\r') by {
            assert(ls0[i] == ls[i]);
        }
        lema_lineas_y_resto_unir(ls0);
        let u0 = unir(ls0, seq!['\n']);
        let l0 = ls0.last();
        assert(l0 == ls[ls.len() - 2]);
        assert(!l0.contains('\r'));
        assert(sin_retorno(l0) == l0) by {
            if l0.len() > 0 && l0.last() == '\r' {
                assert(l0[l0.len() - 1] == '\r');
            }
        }
        assert(u0.push('\n').drop_last() =~= u0);
        assert(lineas_y_resto(u0.push('\n')) == (ls0.drop_last().push(l0), vacio));
        assert(ls0.drop_last().push(l0) =~= ls0);
        let l = ls.last();
        assert(!ls[ls.len() - 1].contains('\n'));
        lema_lineas_anadir(u0.push('\n'), l);
        assert(unir(ls, seq!['\n']) =~= u0.push('\n') + l);
        assert(vacio + l =~= l);
    }
}

/// Unas líneas no vacías, sin saltos ni retornos, unidas con saltos, se
/// vuelven a leer igual.
proof fn lema_lineas_unir(ls: Seq<Seq<char>>)
    requires
        forall|i: int|
            0 <= i < ls.len() ==> !(#[trigger] ls[i]).contains('\n') && !ls[i].contains('\r')
                && ls[i].len() > 0,
    ensures
        lineas(unir(ls, seq!['\n'])) == ls,
{
    if ls.len() == 0 {
        assert(unir(ls, seq!['\n']) =~= Seq::<char>::empty());
        assert(lineas(Seq::<char>::empty()) =~= ls);
    } else {
        lema_lineas_y_resto_unir(ls);
        assert(ls[ls.len() - 1].len() > 0);
        assert(ls.drop_last().push(ls.last()) =~= ls);
    }
}

/// Desplazar las marcas de un texto `a` segundos y después `b` más es
/// desplazarlas `a + b` de una vez, en un texto sin retornos de carro y con
/// marcas que caben en `u64` después de sumarles `a + b`.
pub proof fn ley_desplazar_texto_dos_veces(t: Seq<char>, a: nat, b: nat)
    requires
        !t.contains('\r'),
        forall|i: int| 0 <= i < lineas(t).len() ==> #[trigger] marca_cabe(lineas(t)[i], (a + b) as int),
    ensures
        desplazar(desplazar(t, a as int), b as int) == desplazar(t, (a + b) as int),
{
    let ls = lineas(t);
    lema_lineas_sin(t, '\n');
    lema_lineas_sin(t, '\r');
    lema_desplazadas_limpias(ls, a, '\n');
    lema_desplazadas_limpias(ls, a, '\r');
    let r = desplazadas(ls, a as int);
    assert forall|i: int| 0 <= i < r.len() implies !(#[trigger] r[i]).contains('\n')
        && !r[i].contains('\r') && r[i].len() > 0 by {}
    lema_lineas_unir(r);
    lema_desplazadas_dos_veces(ls, a, b);
}

// ---------------------------------------------------------------------------
// El resumen amplio.
// ---------------------------------------------------------------------------

/// Los elementos que tienen algo más que blancos, en orden.
pub open spec fn sin_blancos(v: Seq<Seq<char>>) -> Seq<Seq<char>>
    decreases v.len(),
{
    if v.len() == 0 {
        seq![]
    } else {
        let r = sin_blancos(v.drop_last());
        if recortar(v.last()).len() > 0 {
            r.push(v.last())
        } else {
            r
        }
    }
}

/// Las tareas que dicen algo que hacer, en orden.
pub open spec fn tareas_con_que(ts: Seq<Tarea>) -> Seq<Tarea>
    decreases ts.len(),
{
    if ts.len() == 0 {
        seq![]
    } else {
        let r = tareas_con_que(ts.drop_last());
        if recortar(ts.last().que@).len() > 0 {
            r.push(ts.last())
        } else {
            r
        }
    }
}

proof fn lema_puntos_sin_blancos(v: Seq<Seq<char>>)
    ensures
        puntos(v) == puntos(sin_blancos(v)),
        citas(v) == citas(sin_blancos(v)),
    decreases v.len(),
{
    if v.len() > 0 {
        let v0 = v.drop_last();
        lema_puntos_sin_blancos(v0);
        let s = sin_blancos(v);
        if recortar(v.last()).len() > 0 {
            assert(s.drop_last() =~= sin_blancos(v0));
            assert(s.last() == v.last());
        } else {
            assert(recortar(recortar(v.last())) =~= recortar(v.last())) by {
                assert(recortar(v.last()).len() == 0);
            }
            assert(texto_cita(v.last()).len() == 0);
        }
    }
}

proof fn lema_tareas_con_que(ts: Seq<Tarea>)
    ensures
        lineas_tareas(ts) == lineas_tareas(tareas_con_que(ts)),
    decreases ts.len(),
{
    if ts.len() > 0 {
        lema_tareas_con_que(ts.drop_last());
        let s = tareas_con_que(ts);
        if recortar(ts.last().que@).len() > 0 {
            assert(s.drop_last() =~= tareas_con_que(ts.drop_last()));
            assert(s.last() == ts.last());
        }
    }
}

/// Un elemento en blanco no es material: quitar del resumen amplio los
/// participantes, temas, puntos, acuerdos y frases que son solo blancos, y
/// las tareas sin nada que hacer, deja el mismo markdown.
pub proof fn ley_amplio_sin_blancos(a: Amplio, b: Amplio)
    requires
        vistas_str(b.participantes@) == sin_blancos(vistas_str(a.participantes@)),
        vistas_str(b.temas@) == sin_blancos(vistas_str(a.temas@)),
        vistas_str(b.puntos_clave@) == sin_blancos(vistas_str(a.puntos_clave@)),
        vistas_str(b.acuerdos@) == sin_blancos(vistas_str(a.acuerdos@)),
        vistas_str(b.frases@) == sin_blancos(vistas_str(a.frases@)),
        b.tareas@ == tareas_con_que(a.tareas@),
    ensures
        amplio_spec(a) == amplio_spec(b),
{
    lema_puntos_sin_blancos(vistas_str(a.participantes@));
    lema_puntos_sin_blancos(vistas_str(a.temas@));
    lema_puntos_sin_blancos(vistas_str(a.puntos_clave@));
    lema_puntos_sin_blancos(vistas_str(a.acuerdos@));
    lema_puntos_sin_blancos(vistas_str(a.frases@));
    lema_tareas_con_que(a.tareas@);
}

proof fn lema_todo_blanco(v: Seq<Seq<char>>)
    requires
        forall|i: int| 0 <= i < v.len() ==> recortar(#[trigger] v[i]).len() == 0,
    ensures
        puntos(v).len() == 0,
        citas(v).len() == 0,
    decreases v.len(),
{
    if v.len() > 0 {
        let v0 = v.drop_last();
        assert forall|i: int| 0 <= i < v0.len() implies recortar(#[trigger] v0[i]).len() == 0 by {
            assert(v0[i] == v[i]);
        }
        lema_todo_blanco(v0);
        assert(recortar(v[v.len() - 1]).len() == 0);
        assert(recortar(recortar(v.last())) =~= recortar(v.last()));
        assert(texto_cita(v.last()).len() == 0);
    }
}

/// Una sección cuyos elementos son todos blancos dice que no hubo nada.
pub proof fn ley_seccion_sin_material(titulo: Seq<char>, v: Seq<Seq<char>>)
    requires
        forall|i: int| 0 <= i < v.len() ==> recortar(#[trigger] v[i]).len() == 0,
    ensures
        seccion(titulo, puntos(v)) == "## "@ + titulo + "\n\n"@ + "_Nada en la conversación._\n\n"@,
        seccion(titulo, citas(v)) == "## "@ + titulo + "\n\n"@ + "_Nada en la conversación._\n\n"@,
{
    lema_todo_blanco(v);
    assert(puntos(v) =~= Seq::<Seq<char>>::empty());
    assert(citas(v) =~= Seq::<Seq<char>>::empty());
    assert(crate::entrevistas::no_vacias(Seq::<Seq<char>>::empty()).len() == 0);
}

} // verus!
