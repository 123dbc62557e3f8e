//! Lo que prometen las salidas que se componen: el informe, el material que
//! se envía al modelo, la lista de proyectos, el título de respaldo y el
//! resumen amplio, cada una dicha desde sus entradas.

use vstd::prelude::*;
use crate::analisis::{componer_spec, Ficha, RolTrabajo};
use crate::llm::{Amplio, Tarea, cabecera_nota, material_parcial, NotaFuente, MAXIMO_DOCUMENTO};
use crate::texto::{en_clase, fragmentos, fragmentos_y_resto, primeros, recortar, Clase};
use crate::notas::{primera_con_texto, primera_frase, recorte_titulo};
use crate::notas::{
    clave_spec, contiene_texto, filtrados, lista_proyectos, Orden, ResumenProyecto,
};

verus! {

// ---------------------------------------------------------------------------
// El informe.
// ---------------------------------------------------------------------------

/// La última línea de la ficha de un informe: la instrucción del usuario, sin
/// blancos, si la dio; si no, la fecha en que se pidió.
pub open spec fn final_informe(ficha: Ficha) -> Seq<char> {
    let i = crate::texto::recortar(ficha.instruccion@);
    let generado = "- **Generado:** "@ + crate::notas::fecha_minuto(ficha.pedido_en@) + " UTC\n"@;
    if i.len() > 0 {
        generado + "- **Instrucción:** "@ + i + "\n"@
    } else {
        generado
    }
}

/// Lo que la ficha lleva antes de su última línea.
pub open spec fn cabeza_ficha(f: Ficha, rs: Seq<RolTrabajo>) -> Seq<char> {
    "\n\n## Ficha\n\n"@ + "- **Modelo:** "@ + crate::analisis::modelo_ficha(
        crate::llm::opcion_str(f.modelo),
        crate::llm::opcion_str(f.servido),
    ) + "\n"@ + "- **Roles:** "@ + crate::texto::unir(crate::analisis::nombres_roles(rs), ", "@)
        + "\n"@ + "- **Llamadas:** "@ + crate::texto::decimal(f.llamadas as nat)
        + " · **Coste:** "@ + crate::analisis::coste_ficha(f.coste) + "\n"@
}

proof fn lema_ficha_acaba(f: Ficha, rs: Seq<RolTrabajo>)
    ensures
        crate::analisis::ficha_spec(f, rs) == cabeza_ficha(f, rs) + final_informe(f),
{
    let y = cabeza_ficha(f, rs);
    let g = "- **Generado:** "@ + crate::notas::fecha_minuto(f.pedido_en@) + " UTC\n"@;
    let r = crate::texto::recortar(f.instruccion@);
    assert(y + g == cabeza_ficha(f, rs) + "- **Generado:** "@ + crate::notas::fecha_minuto(
        f.pedido_en@,
    ) + " UTC\n"@);
    if r.len() > 0 {
        assert(crate::analisis::ficha_spec(f, rs) =~= (y + g) + ("- **Instrucción:** "@ + r
            + "\n"@));
        assert(final_informe(f) =~= g + ("- **Instrucción:** "@ + r + "\n"@));
        assert(y + final_informe(f) =~= (y + g) + ("- **Instrucción:** "@ + r + "\n"@));
    } else {
        assert(crate::analisis::ficha_spec(f, rs) =~= (y + g) + Seq::<char>::empty());
        assert(final_informe(f) == g);
    }
}

/// El informe acaba con la fecha en que se pidió y, si el usuario dio una
/// instrucción, con ella sin blancos en su propia línea.
pub proof fn ley_informe_acaba_en_instruccion(
    sintesis: Seq<char>,
    titulo: Seq<char>,
    roles: Seq<RolTrabajo>,
    fuentes: Seq<NotaFuente>,
    ficha: Ficha,
)
    ensures
        componer_spec(sintesis, titulo, roles, fuentes, ficha).len() >= final_informe(ficha).len(),
        componer_spec(sintesis, titulo, roles, fuentes, ficha).skip(
            componer_spec(sintesis, titulo, roles, fuentes, ficha).len() - final_informe(ficha).len(),
        ) == final_informe(ficha),
{
    let c = componer_spec(sintesis, titulo, roles, fuentes, ficha);
    let fin = final_informe(ficha);
    lema_ficha_acaba(ficha, roles);
    let z = "# "@ + titulo + "\n\n"@ + crate::texto::recortar(sintesis)
        + "\n\n## Análisis por rol\n\n"@ + crate::analisis::bloques_roles(roles)
        + crate::texto::sin_fin(crate::notas::notas_de_origen_spec(fuentes), crate::texto::Clase::Blanco);
    assert(c == z + crate::analisis::ficha_spec(ficha, roles));
    let p = z + cabeza_ficha(ficha, roles);
    assert(c =~= p + fin);
    assert(c.skip(c.len() - fin.len()) =~= fin);
}

// ---------------------------------------------------------------------------
// La lista de proyectos.
// ---------------------------------------------------------------------------

/// Un proyecto que se pide ver: no archivado (salvo que se pidan los
/// archivados) y con cada término de la búsqueda en la clave de su nombre y
/// su descripción.
pub open spec fn buscado(p: ResumenProyecto, con_archivados: bool, ts: Seq<Seq<char>>) -> bool {
    &&& con_archivados || !p.archivado
    &&& forall|j: int|
        0 <= j < ts.len() ==> contiene_texto(
            clave_spec(p.nombre@ + seq![' '] + p.descripcion@),
            #[trigger] ts[j],
        )
}

proof fn lema_filtrados(ps: Seq<ResumenProyecto>, ca: bool, ts: Seq<Seq<char>>)
    ensures
        forall|j: int|
            0 <= j < filtrados(ps, ca, ts).len() ==> 0 <= #[trigger] filtrados(ps, ca, ts)[j]
                < ps.len() && buscado(ps[filtrados(ps, ca, ts)[j]], ca, ts),
        forall|i: int| 0 <= i < ps.len() && buscado(#[trigger] ps[i], ca, ts) ==> filtrados(
            ps,
            ca,
            ts,
        ).contains(i),
    decreases ps.len(),
{
    if ps.len() > 0 {
        let ps0 = ps.drop_last();
        lema_filtrados(ps0, ca, ts);
        let f0 = filtrados(ps0, ca, ts);
        let f = filtrados(ps, ca, ts);
        assert forall|j: int| 0 <= j < f.len() implies 0 <= #[trigger] f[j] < ps.len() && buscado(
            ps[f[j]],
            ca,
            ts,
        ) by {
            if j < f0.len() {
                assert(f[j] == f0[j]);
                assert(ps0[f0[j]] == ps[f0[j]]);
            }
        }
        assert forall|i: int| 0 <= i < ps.len() && buscado(#[trigger] ps[i], ca, ts) implies f.contains(
            i,
        ) by {
            if i < ps.len() - 1 {
                assert(ps0[i] == ps[i]);
                assert(f0.contains(i));
                let x = choose|x: int| 0 <= x < f0.len() && f0[x] == i;
                assert(f[x] == i);
            } else {
                assert(f[f.len() - 1] == i);
            }
        }
    }
}

/// La lista de proyectos trae justo los buscados: cada uno que sale está
/// buscado, y cada buscado sale.
pub proof fn ley_lista_proyectos(
    ps: Seq<ResumenProyecto>,
    ca: bool,
    ts: Seq<Seq<char>>,
    o: Orden,
    r: Seq<int>,
)
    requires
        lista_proyectos(ps, ca, ts, o, r),
    ensures
        forall|j: int| 0 <= j < r.len() ==> 0 <= #[trigger] r[j] < ps.len() && buscado(ps[r[j]], ca, ts),
        forall|i: int| 0 <= i < ps.len() && buscado(#[trigger] ps[i], ca, ts) ==> r.contains(i),
{
    let f = filtrados(ps, ca, ts);
    let k = f.map_values(|i: int| crate::notas::clave_orden(ps[i], o));
    lema_filtrados(ps, ca, ts);
    let perm = choose|perm: Seq<int>|
        crate::orden::ordenados(k, crate::notas::descendente(o), perm, f.len() as int) && r.len()
            == perm.len() && forall|j: int| 0 <= j < r.len() ==> #[trigger] r[j] == f[perm[j]];
    crate::leyes::ley_orden_permutacion(k, crate::notas::descendente(o), perm, f.len() as int);
    assert forall|j: int| 0 <= j < r.len() implies 0 <= #[trigger] r[j] < ps.len() && buscado(
        ps[r[j]],
        ca,
        ts,
    ) by {
        assert(r[j] == f[perm[j]]);
        assert(0 <= perm[j] < f.len());
    }
    assert forall|i: int| 0 <= i < ps.len() && buscado(#[trigger] ps[i], ca, ts) implies r.contains(
        i,
    ) by {
        assert(f.contains(i));
        let x = choose|x: int| 0 <= x < f.len() && f[x] == i;
        assert(perm.contains(x));
        let j = choose|j: int| 0 <= j < perm.len() && perm[j] == x;
        assert(r[j] == f[perm[j]]);
    }
}

// ---------------------------------------------------------------------------
// El material de las notas.
// ---------------------------------------------------------------------------

/// El material que ya había antes de la última nota, con la cabecera de esta.
pub open spec fn hasta_cabecera(ns: Seq<NotaFuente>, t: int) -> Seq<char> {
    material_parcial(ns.drop_last(), t).0 + cabecera_nota(ns.len() - 1, ns.last())
}

/// Lo que entra del contenido de la última nota: lo que sigue a su cabecera,
/// sin los dos saltos del final.
pub open spec fn parte_ultima(ns: Seq<NotaFuente>, t: int) -> Seq<char> {
    let m = material_parcial(ns, t).0;
    m.subrange(hasta_cabecera(ns, t).len() as int, m.len() - 2)
}

pub open spec fn minimo(a: int, b: int) -> int {
    if a < b {
        a
    } else {
        b
    }
}

/// El material con `t` notas en total reparte el tope: de cada nota entra un
/// principio de su contenido que no pasa de su parte (`MAXIMO_DOCUMENTO / t`)
/// y que solo se corta al llegar a esa parte o al tope; la nota va tras lo
/// anterior y su cabecera, seguida de dos saltos, y cuenta como recortada si
/// no entra entera.
pub proof fn ley_material_reparto(ns: Seq<NotaFuente>, t: int)
    requires
        ns.len() > 0,
        t >= 1,
    ensures
        material_parcial(ns, t).0.len() >= hasta_cabecera(ns, t).len() + 2,
        material_parcial(ns, t).0.take(hasta_cabecera(ns, t).len() as int) == hasta_cabecera(ns, t),
        material_parcial(ns, t).0.skip(material_parcial(ns, t).0.len() - 2) == seq!['\n', '\n'],
        parte_ultima(ns, t) == ns.last().contenido@.take(parte_ultima(ns, t).len() as int),
        parte_ultima(ns, t).len() <= MAXIMO_DOCUMENTO as int / t,
        parte_ultima(ns, t).len() >= minimo(
            ns.last().contenido@.len() as int,
            minimo(
                MAXIMO_DOCUMENTO as int / t,
                MAXIMO_DOCUMENTO as int - hasta_cabecera(ns, t).len(),
            ),
        ),
        material_parcial(ns, t).1 == material_parcial(ns.drop_last(), t).1 + (if parte_ultima(
            ns,
            t,
        ).len() < ns.last().contenido@.len() {
            1int
        } else {
            0int
        }),
{
    reveal_strlit("\n\n");
    let m0 = material_parcial(ns.drop_last(), t).0;
    let n = ns.last();
    let cab = cabecera_nota(ns.len() - 1, n);
    let e = crate::llm::espacio_nota(m0.len() as int, cab.len() as int, t);
    let c = primeros(n.contenido@, e);
    let m = material_parcial(ns, t).0;
    let h = hasta_cabecera(ns, t);
    assert(m == m0 + cab + c + "\n\n"@);
    assert(m =~= h + c + seq!['\n', '\n']);
    assert(m.take(h.len() as int) =~= h);
    assert(m.skip(m.len() - 2) =~= seq!['\n', '\n']);
    assert(parte_ultima(ns, t) =~= c);
    assert(c =~= n.contenido@.take(c.len() as int));
}

// ---------------------------------------------------------------------------
// El título de respaldo.
// ---------------------------------------------------------------------------

/// Lo que acaba una frase: punto, exclamación, interrogación o salto de línea.
pub open spec fn fin_de_frase(c: char) -> bool {
    c == '.' || c == '!' || c == '?' || c == '\n'
}

pub open spec fn sin_fines(s: Seq<char>) -> bool {
    forall|i: int| 0 <= i < s.len() ==> !fin_de_frase(#[trigger] s[i])
}

proof fn lema_clase_fin(c: char)
    ensures
        en_clase(Clase::FinFrase, c) == fin_de_frase(c),
{
}

proof fn lema_fragmentos_sin_fines(s: Seq<char>)
    ensures
        forall|i: int|
            0 <= i < fragmentos_y_resto(s, Clase::FinFrase).0.len() ==> sin_fines(
                #[trigger] fragmentos_y_resto(s, Clase::FinFrase).0[i],
            ),
        sin_fines(fragmentos_y_resto(s, Clase::FinFrase).1),
    decreases s.len(),
{
    if s.len() > 0 {
        lema_fragmentos_sin_fines(s.drop_last());
        lema_clase_fin(s.last());
        let (fs, f) = fragmentos_y_resto(s.drop_last(), Clase::FinFrase);
        if !fin_de_frase(s.last()) {
            assert forall|i: int| 0 <= i < f.push(s.last()).len() implies !fin_de_frase(
                #[trigger] f.push(s.last())[i],
            ) by {
                if i < f.len() {
                    assert(f.push(s.last())[i] == f[i]);
                }
            }
        } else {
            let r = fragmentos_y_resto(s, Clase::FinFrase).0;
            assert(r == fs.push(f));
            assert forall|i: int| 0 <= i < r.len() implies sin_fines(#[trigger] r[i]) by {
                if i < fs.len() {
                    assert(r[i] == fs[i]);
                }
            }
        }
    }
}

proof fn lema_recortar_dentro(x: Seq<char>)
    ensures
        sin_fines(x) ==> sin_fines(recortar(x)),
{
    crate::texto::lema_sin_inicio_es_sufijo(x, Clase::Blanco);
    let a = crate::texto::sin_inicio(x, Clase::Blanco);
    crate::texto::lema_sin_fin_es_prefijo(a, Clase::Blanco);
    let r = recortar(x);
    if sin_fines(x) {
        assert forall|i: int| 0 <= i < r.len() implies !fin_de_frase(#[trigger] r[i]) by {
            assert(r[i] == a[i]);
            assert(a[i] == x[x.len() - a.len() + i]);
        }
    }
}

proof fn lema_primera_con_texto_sin_fines(fs: Seq<Seq<char>>)
    requires
        forall|i: int| 0 <= i < fs.len() ==> sin_fines(#[trigger] fs[i]),
    ensures
        primera_con_texto(fs) matches Some(p) ==> sin_fines(p),
    decreases fs.len(),
{
    if fs.len() > 0 {
        let fs0 = fs.drop_last();
        assert forall|i: int| 0 <= i < fs0.len() implies sin_fines(#[trigger] fs0[i]) by {
            assert(fs0[i] == fs[i]);
        }
        lema_primera_con_texto_sin_fines(fs0);
        assert(sin_fines(fs[fs.len() - 1]));
        lema_recortar_dentro(fs.last());
    }
}

/// La primera frase del título de respaldo no lleva ningún fin de frase, ni
/// tampoco lo que queda de ella tras cortarla; y un texto sin fines de frase
/// es una sola frase.
pub proof fn ley_frase_de_respaldo(c: Seq<char>)
    ensures
        sin_fines(primera_frase(c)),
        sin_fines(recorte_titulo(primera_frase(c))),
        sin_fines(c) ==> primera_frase(c) == recortar(c),
{
    lema_fragmentos_sin_fines(c);
    let (fs, f) = fragmentos_y_resto(c, Clase::FinFrase);
    let todos = fragmentos(c, Clase::FinFrase);
    assert(todos == fs.push(f));
    assert forall|i: int| 0 <= i < todos.len() implies sin_fines(#[trigger] todos[i]) by {
        if i < fs.len() {
            assert(todos[i] == fs[i]);
        }
    }
    lema_primera_con_texto_sin_fines(todos);
    let p = primera_frase(c);
    let q = recorte_titulo(p);
    if p.len() > 60 {
        let k = crate::texto::ultima_posicion(p.take(60), ' ');
        crate::texto::lema_ultima_posicion(p.take(60), ' ');
        assert forall|i: int| 0 <= i < q.len() implies !fin_de_frase(#[trigger] q[i]) by {
            if i < q.len() - 1 {
                assert(q[i] == p[i]);
            }
        }
    }
    if sin_fines(c) {
        lema_fragmentos_anadir(Seq::<char>::empty(), c);
        assert(Seq::<char>::empty() + c =~= c);
        assert(fs =~= Seq::<Seq<char>>::empty());
        assert(f =~= c);
        assert(todos =~= seq![c]);
        assert(todos.drop_last() =~= Seq::<Seq<char>>::empty());
        assert(todos.last() == c);
        assert(primera_con_texto(Seq::<Seq<char>>::empty()) is None);
        assert(primera_con_texto(todos.drop_last()) is None);
        if recortar(c).len() == 0 {
            assert(primera_con_texto(todos) is None);
            assert(p =~= recortar(c));
        } else {
            assert(primera_con_texto(todos) == Some(recortar(c)));
        }
    }
}

/// Lo que se añade sin fines de frase cae en el trozo a medias.
proof fn lema_fragmentos_anadir(x: Seq<char>, y: Seq<char>)
    requires
        sin_fines(y),
    ensures
        fragmentos_y_resto(x + y, Clase::FinFrase) == (
            fragmentos_y_resto(x, Clase::FinFrase).0,
            fragmentos_y_resto(x, Clase::FinFrase).1 + y,
        ),
    decreases y.len(),
{
    if y.len() == 0 {
        assert(x + y =~= x);
        assert(fragmentos_y_resto(x, Clase::FinFrase).1 + y =~= fragmentos_y_resto(
            x,
            Clase::FinFrase,
        ).1);
    } else {
        let y0 = y.drop_last();
        assert(sin_fines(y0)) by {
            assert forall|i: int| 0 <= i < y0.len() implies !fin_de_frase(#[trigger] y0[i]) by {
                assert(y0[i] == y[i]);
            }
        }
        lema_fragmentos_anadir(x, y0);
        assert((x + y).drop_last() =~= x + y0);
        assert((x + y).last() == y[y.len() - 1]);
        lema_clase_fin(y[y.len() - 1]);
        assert((fragmentos_y_resto(x, Clase::FinFrase).1 + y0).push(y.last())
            =~= fragmentos_y_resto(x, Clase::FinFrase).1 + y);
    }
}

proof fn lema_fragmentos_prefijo(s: Seq<char>, y: Seq<char>)
    ensures
        fragmentos_y_resto(s + y, Clase::FinFrase).0.len() >= fragmentos_y_resto(s, Clase::FinFrase).0.len(),
        forall|i: int|
            0 <= i < fragmentos_y_resto(s, Clase::FinFrase).0.len() ==> #[trigger] fragmentos_y_resto(
                s + y,
                Clase::FinFrase,
            ).0[i] == fragmentos_y_resto(s, Clase::FinFrase).0[i],
    decreases y.len(),
{
    if y.len() == 0 {
        assert(s + y =~= s);
    } else {
        let y0 = y.drop_last();
        lema_fragmentos_prefijo(s, y0);
        assert((s + y).drop_last() =~= s + y0);
        let a = fragmentos_y_resto(s + y0, Clase::FinFrase).0;
        let b = fragmentos_y_resto(s + y, Clase::FinFrase).0;
        assert forall|i: int| 0 <= i < fragmentos_y_resto(s, Clase::FinFrase).0.len() implies #[trigger] b[i]
            == fragmentos_y_resto(s, Clase::FinFrase).0[i] by {
            assert(b[i] == a[i]);
        }
    }
}

proof fn lema_primera_con_texto_inicio(fs: Seq<Seq<char>>)
    requires
        fs.len() > 0,
        recortar(fs[0]).len() > 0,
    ensures
        primera_con_texto(fs) == Some(recortar(fs[0])),
    decreases fs.len(),
{
    if fs.len() > 1 {
        let fs0 = fs.drop_last();
        assert(fs0[0] == fs[0]);
        lema_primera_con_texto_inicio(fs0);
    } else {
        assert(fs.drop_last() =~= Seq::<Seq<char>>::empty());
        assert(primera_con_texto(fs.drop_last()) is None);
        assert(fs.last() == fs[0]);
    }
}

/// El título de respaldo sale de la primera frase con texto: si el contenido
/// empieza por `x` (sin fines de frase y con algo más que blancos) seguido de
/// un fin de frase, la frase es `x` sin blancos, diga lo que diga el resto.
pub proof fn ley_primera_frase_es_la_primera(x: Seq<char>, s: char, y: Seq<char>)
    requires
        fin_de_frase(s),
        sin_fines(x),
        recortar(x).len() > 0,
    ensures
        primera_frase(x + seq![s] + y) == recortar(x),
{
    let vacio = Seq::<char>::empty();
    lema_fragmentos_anadir(vacio, x);
    assert(vacio + x =~= x);
    assert(fragmentos_y_resto(vacio, Clase::FinFrase) == (Seq::<Seq<char>>::empty(), vacio));
    assert(fragmentos_y_resto(x, Clase::FinFrase) == (Seq::<Seq<char>>::empty(), x)) by {
        assert(vacio + x =~= x);
    }
    lema_clase_fin(s);
    assert(x.push(s).drop_last() =~= x);
    assert(fragmentos_y_resto(x.push(s), Clase::FinFrase).0 =~= seq![x]);
    let c = x + seq![s] + y;
    assert(c =~= x.push(s) + y);
    lema_fragmentos_prefijo(x.push(s), y);
    let fs = fragmentos_y_resto(c, Clase::FinFrase).0;
    assert(fs[0] == x);
    let todos = fragmentos(c, Clase::FinFrase);
    assert(todos[0] == x);
    lema_primera_con_texto_inicio(todos);
}

// ---------------------------------------------------------------------------
// El resumen amplio.
// ---------------------------------------------------------------------------

/// Una sección: su título de segundo nivel y sus líneas, o que no hubo nada.
pub open spec fn bloque(titulo: Seq<char>, ls: Seq<Seq<char>>) -> Seq<char> {
    "## "@ + titulo + "\n\n"@ + (if ls.len() == 0 {
        "_Nada en la conversación._\n\n"@
    } else {
        crate::texto::unir(ls, "\n"@) + "\n\n"@
    })
}

/// Los elementos con algo, sin blancos, como puntos de lista.
pub open spec fn puntos_de(v: Seq<Seq<char>>) -> Seq<Seq<char>> {
    crate::leyes::sin_blancos(v).map_values(|x: Seq<char>| "- "@ + recortar(x))
}

/// La línea de una tarea: quién en negrita, si se sabe, y qué.
pub open spec fn tarea_en_linea(t: Tarea) -> Seq<char> {
    if recortar(t.quien@).len() == 0 {
        "- "@ + recortar(t.que@)
    } else {
        "- **"@ + recortar(t.quien@) + "**: "@ + recortar(t.que@)
    }
}

/// Las tareas con algo que hacer, cada una en su línea.
pub open spec fn tareas_de(ts: Seq<Tarea>) -> Seq<Seq<char>> {
    crate::leyes::tareas_con_que(ts).map_values(|t: Tarea| tarea_en_linea(t))
}

/// El texto de una frase sin blancos ni comillas en los bordes.
pub open spec fn frase_limpia(f: Seq<char>) -> Seq<char> {
    crate::texto::sin_bordes(recortar(f), Clase::ComillasCortas)
}

/// Las frases con texto, como citas entre comillas angulares.
pub open spec fn citas_de(v: Seq<Seq<char>>) -> Seq<Seq<char>>
    decreases v.len(),
{
    if v.len() == 0 {
        seq![]
    } else if frase_limpia(v.last()).len() > 0 {
        citas_de(v.drop_last()).push("> «"@ + frase_limpia(v.last()) + "»"@)
    } else {
        citas_de(v.drop_last())
    }
}

proof fn lema_puntos_de(v: Seq<Seq<char>>)
    ensures
        crate::entrevistas::puntos(v) == puntos_de(v),
    decreases v.len(),
{
    if v.len() > 0 {
        lema_puntos_de(v.drop_last());
        let s0 = crate::leyes::sin_blancos(v.drop_last());
        if recortar(v.last()).len() > 0 {
            assert(crate::leyes::sin_blancos(v) == s0.push(v.last()));
            assert(puntos_de(v) =~= puntos_de(v.drop_last()).push("- "@ + recortar(v.last())));
        } else {
            assert(crate::leyes::sin_blancos(v) == s0);
        }
    }
}

proof fn lema_tareas_de(ts: Seq<Tarea>)
    ensures
        crate::entrevistas::lineas_tareas(ts) == tareas_de(ts),
    decreases ts.len(),
{
    if ts.len() > 0 {
        lema_tareas_de(ts.drop_last());
        let s0 = crate::leyes::tareas_con_que(ts.drop_last());
        if recortar(ts.last().que@).len() > 0 {
            assert(crate::leyes::tareas_con_que(ts) == s0.push(ts.last()));
            assert(tareas_de(ts) =~= tareas_de(ts.drop_last()).push(tarea_en_linea(ts.last())));
        } else {
            assert(crate::leyes::tareas_con_que(ts) == s0);
        }
    }
}

proof fn lema_citas_de(v: Seq<Seq<char>>)
    ensures
        crate::entrevistas::citas(v) == citas_de(v),
    decreases v.len(),
{
    if v.len() > 0 {
        lema_citas_de(v.drop_last());
    }
}

/// Líneas que empiezan por algo que no es blanco.
pub open spec fn empiezan_llenas(ls: Seq<Seq<char>>) -> bool {
    forall|i: int|
        0 <= i < ls.len() ==> (#[trigger] ls[i]).len() > 0 && !crate::texto::blanco(ls[i][0])
}

proof fn lema_no_vacias_llenas(ls: Seq<Seq<char>>)
    requires
        empiezan_llenas(ls),
    ensures
        crate::entrevistas::no_vacias(ls) == ls,
    decreases ls.len(),
{
    if ls.len() > 0 {
        let ls0 = ls.drop_last();
        assert(empiezan_llenas(ls0)) by {
            assert forall|i: int| 0 <= i < ls0.len() implies (#[trigger] ls0[i]).len() > 0
                && !crate::texto::blanco(ls0[i][0]) by {
                assert(ls0[i] == ls[i]);
            }
        }
        lema_no_vacias_llenas(ls0);
        assert(ls[ls.len() - 1].len() > 0);
        crate::leyes::lema_bordes_con_algo(ls.last(), Clase::Blanco, 0);
        assert(ls0.push(ls.last()) =~= ls);
    }
}

proof fn lema_con_saltos(ls: Seq<Seq<char>>)
    requires
        ls.len() > 0,
    ensures
        crate::entrevistas::con_saltos(ls) == crate::texto::unir(ls, "\n"@) + "\n"@,
    decreases ls.len(),
{
    reveal_strlit("\n");
    let ls0 = ls.drop_last();
    if ls.len() == 1 {
        assert(ls0 =~= Seq::<Seq<char>>::empty());
        assert(crate::entrevistas::con_saltos(ls0) =~= Seq::<char>::empty());
        assert(crate::entrevistas::con_saltos(ls) =~= ls[0] + seq!['\n']);
    } else {
        lema_con_saltos(ls0);
        assert(crate::entrevistas::con_saltos(ls) =~= crate::texto::unir(ls, "\n"@) + "\n"@);
    }
}

proof fn lema_seccion(titulo: Seq<char>, ls: Seq<Seq<char>>)
    requires
        empiezan_llenas(ls),
    ensures
        crate::entrevistas::seccion(titulo, ls) == bloque(titulo, ls),
{
    lema_no_vacias_llenas(ls);
    if ls.len() > 0 {
        lema_con_saltos(ls);
        reveal_strlit("\n");
        reveal_strlit("\n\n");
        assert(crate::entrevistas::con_saltos(ls) + "\n"@ =~= crate::texto::unir(ls, "\n"@)
            + "\n\n"@);
    }
}

proof fn lema_llenas(a: Amplio)
    ensures
        empiezan_llenas(puntos_de(vistas_str_de(a.participantes@))),
        empiezan_llenas(puntos_de(vistas_str_de(a.temas@))),
        empiezan_llenas(puntos_de(vistas_str_de(a.puntos_clave@))),
        empiezan_llenas(puntos_de(vistas_str_de(a.acuerdos@))),
        empiezan_llenas(tareas_de(a.tareas@)),
        empiezan_llenas(citas_de(vistas_str_de(a.frases@))),
{
    reveal(crate::texto::blanco);
    reveal_strlit("- ");
    reveal_strlit("- **");
    reveal_strlit("> «");
    lema_citas_llenas(vistas_str_de(a.frases@));
}

proof fn lema_citas_llenas(v: Seq<Seq<char>>)
    ensures
        empiezan_llenas(citas_de(v)),
    decreases v.len(),
{
    reveal(crate::texto::blanco);
    reveal_strlit("> «");
    if v.len() > 0 {
        lema_citas_llenas(v.drop_last());
        let c0 = citas_de(v.drop_last());
        let c = citas_de(v);
        assert forall|i: int| 0 <= i < c.len() implies (#[trigger] c[i]).len() > 0
            && !crate::texto::blanco(c[i][0]) by {
            if i < c0.len() {
                assert(c[i] == c0[i]);
            }
        }
    }
}

pub open spec fn vistas_str_de(v: Seq<String>) -> Seq<Seq<char>> {
    crate::texto::vistas_str(v)
}

/// El resumen amplio tiene sus seis secciones en orden, cada una con su
/// título y con las líneas que salen de su propio campo: participantes,
/// temas, puntos clave y acuerdos como puntos de lista (sin los que son solo
/// blancos), las tareas con algo que hacer y las frases con texto como citas;
/// una sección sin nada lo dice. Al final no quedan blancos.
pub proof fn ley_amplio_por_secciones(a: Amplio)
    ensures
        crate::entrevistas::amplio_spec(a) == crate::texto::sin_fin(
            bloque("Participantes"@, puntos_de(vistas_str_de(a.participantes@))) + bloque(
                "Temas tratados"@,
                puntos_de(vistas_str_de(a.temas@)),
            ) + bloque("Puntos clave"@, puntos_de(vistas_str_de(a.puntos_clave@))) + bloque(
                "Acuerdos y decisiones"@,
                puntos_de(vistas_str_de(a.acuerdos@)),
            ) + bloque("Tareas pendientes"@, tareas_de(a.tareas@)) + bloque(
                "Frases literales relevantes"@,
                citas_de(vistas_str_de(a.frases@)),
            ),
            Clase::Blanco,
        ),
{
    lema_llenas(a);
    lema_puntos_de(vistas_str_de(a.participantes@));
    lema_puntos_de(vistas_str_de(a.temas@));
    lema_puntos_de(vistas_str_de(a.puntos_clave@));
    lema_puntos_de(vistas_str_de(a.acuerdos@));
    lema_tareas_de(a.tareas@);
    lema_citas_de(vistas_str_de(a.frases@));
    lema_seccion("Participantes"@, puntos_de(vistas_str_de(a.participantes@)));
    lema_seccion("Temas tratados"@, puntos_de(vistas_str_de(a.temas@)));
    lema_seccion("Puntos clave"@, puntos_de(vistas_str_de(a.puntos_clave@)));
    lema_seccion("Acuerdos y decisiones"@, puntos_de(vistas_str_de(a.acuerdos@)));
    lema_seccion("Tareas pendientes"@, tareas_de(a.tareas@));
    lema_seccion("Frases literales relevantes"@, citas_de(vistas_str_de(a.frases@)));
}

} // verus!
