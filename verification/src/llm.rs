//! Lo que se le pide al servicio de modelos y lo que se hace con lo que
//! devuelve: los tipos de las peticiones y respuestas, la limpieza de títulos
//! y etiquetas, el material de notas que se le envía y los textos de cada
//! encargo. La llamada en sí (red, JSON) vive fuera de la biblioteca.

use vstd::prelude::*;
use vstd::string::StringSliceAdditionalSpecFns;
use base64::Engine;
use crate::texto::{
    a_minusculas, anadir, anadir_decimal, anadir_str, recortado, bordes, buscar, caracteres, copia,
    decimal, empujar, es_alfanumerico, alfanumerico, lineas, lineas_de, minusculas, posicion,
    primeros, recortar, saltar_fin, saltar_inicio, sin_bordes, sin_fin, sin_inicio, texto_de,
    texto, unir, unir_de, unir_strings, vistas, vistas_str, lema_posicion, lema_sin_fin_es_prefijo,
    lema_sin_inicio_es_sufijo, Clase,
};

verus! {

/// Lo que el modelo devuelve para una nota.
pub struct Sugerencia {
    pub titulo: String,
    pub etiquetas: Vec<String>,
}

/// Una nota tal y como entra en un documento.
pub struct NotaFuente {
    pub titulo: String,
    pub creada_en: String,
    pub contenido: String,
    pub etiquetas: Vec<String>,
}

/// El proyecto del que salen las notas de un documento: contexto para el
/// modelo, que así sabe de qué va el encargo sin que el usuario lo repita.
pub struct Proyecto {
    pub nombre: String,
    pub descripcion: String,
}

/// Lo que el modelo devuelve para un conjunto de notas: el documento entero
/// menos la sección de notas de origen, que la escribe la aplicación.
pub struct Documento {
    pub titulo: String,
    pub markdown: String,
}

/// Lo que acompaña a un trozo de audio para que el modelo sepa dónde está:
/// qué trozo es, con quién se habla y cómo acabó el anterior.
pub struct ContextoTrozo<'a> {
    pub n: usize,
    pub total: usize,
    pub con_quien: &'a str,
    pub proyecto: Option<&'a Proyecto>,
    pub cola_anterior: &'a str,
}

/// Una tarea pendiente que sale de la entrevista.
pub struct Tarea {
    pub quien: String,
    pub que: String,
}

/// El resumen amplio por partes: el markdown lo compone la aplicación, así
/// que el formato nunca depende de lo que el modelo decida.
pub struct Amplio {
    pub participantes: Vec<String>,
    pub temas: Vec<String>,
    pub puntos_clave: Vec<String>,
    pub acuerdos: Vec<String>,
    pub tareas: Vec<Tarea>,
    pub frases: Vec<String>,
}

/// Los dos resúmenes de una entrevista y el título que propone el modelo.
pub struct Resumen {
    pub titulo: String,
    pub ejecutivo: String,
    pub amplio: Amplio,
}

/// Un rol del análisis tal y como se le pide al modelo: quién es y qué mira.
pub struct RolPedido<'a> {
    pub nombre: &'a str,
    pub icono: &'a str,
    pub enfoque: &'a str,
}

/// Lo que ya escribió un rol, para la síntesis.
pub struct AnalisisHecho<'a> {
    pub nombre: &'a str,
    pub icono: &'a str,
    pub texto: &'a str,
}

// ---------------------------------------------------------------------------
// Comillas y punto final.
// ---------------------------------------------------------------------------

/// Una pasada: fuera comillas de los dos bordes, puntos del final y blancos.
pub open spec fn paso_adornos(s: Seq<char>) -> Seq<char> {
    recortar(sin_fin(sin_bordes(s, Clase::Comillas), Clase::Punto))
}

pub proof fn lema_paso_acorta(s: Seq<char>)
    ensures
        paso_adornos(s).len() <= s.len(),
        paso_adornos(s).len() == s.len() ==> paso_adornos(s) == s,
        paso_adornos(s) == s ==> sin_bordes(s, Clase::Comillas) == s && sin_fin(s, Clase::Punto)
            == s && recortar(s) == s,
{
    let s1 = sin_inicio(s, Clase::Comillas);
    let s2 = sin_fin(s1, Clase::Comillas);
    let s3 = sin_fin(s2, Clase::Punto);
    let s4 = sin_inicio(s3, Clase::Blanco);
    let s5 = sin_fin(s4, Clase::Blanco);
    lema_sin_inicio_es_sufijo(s, Clase::Comillas);
    lema_sin_fin_es_prefijo(s1, Clase::Comillas);
    lema_sin_fin_es_prefijo(s2, Clase::Punto);
    lema_sin_inicio_es_sufijo(s3, Clase::Blanco);
    lema_sin_fin_es_prefijo(s4, Clase::Blanco);
    if s5.len() == s.len() {
        assert(s1 =~= s);
        assert(s2 =~= s1);
        assert(s3 =~= s2);
        assert(s4 =~= s3);
        assert(s5 =~= s4);
    }
}

/// Pasadas hasta que ya no cambia nada.
pub open spec fn adornos(s: Seq<char>) -> Seq<char>
    decreases s.len(),
{
    let t = paso_adornos(s);
    if t == s {
        s
    } else {
        proof {
            lema_paso_acorta(s);
        }
        adornos(t)
    }
}

/// Quita comillas y punto final, en cualquier orden y cuantas veces hagan
/// falta: el modelo devuelve «Título». y una sola pasada deja el cierre colgando.
pub open spec fn recortar_adornos_spec(s: Seq<char>) -> Seq<char> {
    adornos(recortar(s))
}

/// Lo que queda tras `adornos` ya no cambia con otra pasada.
pub proof fn lema_adornos_fijo(s: Seq<char>)
    ensures
        paso_adornos(adornos(s)) == adornos(s),
    decreases s.len(),
{
    let t = paso_adornos(s);
    if t != s {
        lema_paso_acorta(s);
        lema_adornos_fijo(t);
    }
}

fn recortar_adornos_en(v: &Vec<char>) -> (r: (usize, usize))
    ensures
        r.0 <= r.1 <= v.len(),
        v@.subrange(r.0 as int, r.1 as int) == recortar_adornos_spec(v@),
{
    let (mut a, mut b) = bordes(v, 0, v.len(), Clase::Blanco);
    assert(v@.subrange(0, v@.len() as int) == v@);
    loop
        invariant
            a <= b <= v.len(),
            recortar_adornos_spec(v@) == adornos(v@.subrange(a as int, b as int)),
        decreases b - a,
    {
        let ghost w = v@.subrange(a as int, b as int);
        let (a1, b1) = bordes(v, a, b, Clase::Comillas);
        let b2 = saltar_fin(v, a1, b1, Clase::Punto);
        let (a3, b3) = bordes(v, a1, b2, Clase::Blanco);
        assert(v@.subrange(a3 as int, b3 as int) == paso_adornos(w));
        proof {
            lema_paso_acorta(w);
        }
        if b3 - a3 == b - a {
            return (a, b);
        }
        a = a3;
        b = b3;
    }
}

/// Quita comillas y punto final del principio y del final, en cualquier
/// orden y cuantas veces hagan falta, y los blancos de los bordes.
pub fn recortar_adornos(texto: &str) -> (r: String)
    ensures
        r@ == recortar_adornos_spec(texto@),
{
    let v = caracteres(texto);
    let (a, b) = recortar_adornos_en(&v);
    texto_de(&v, a, b)
}

/// Los `n` primeros caracteres de `v[a..b]`.
fn primeros_en(v: &Vec<char>, a: usize, b: usize, n: usize) -> (r: String)
    requires
        a <= b <= v.len(),
    ensures
        r@ == primeros(v@.subrange(a as int, b as int), n as int),
{
    let fin = if b - a > n {
        a + n
    } else {
        b
    };
    assert(v@.subrange(a as int, b as int).take(n as int) =~= v@.subrange(a as int, a + n)
        || b - a <= n);
    texto_de(v, a, fin)
}

/// El título limpio de adornos y recortado a `n` caracteres.
pub open spec fn titulo_limpio(t: Seq<char>, n: int) -> Seq<char> {
    primeros(recortar_adornos_spec(t), n)
}

fn titulo_recortado(t: &str, n: usize) -> (r: String)
    ensures
        r@ == titulo_limpio(t@, n as int),
{
    let v = caracteres(t);
    let (a, b) = recortar_adornos_en(&v);
    primeros_en(&v, a, b, n)
}

// ---------------------------------------------------------------------------
// Etiquetas.
// ---------------------------------------------------------------------------

/// Etiquetas que valdrían para cualquier nota: se descartan.
pub open spec fn inutil(e: Seq<char>) -> bool {
    e == "nota"@ || e == "notas"@ || e == "personal"@ || e == "general"@ || e == "recordatorio"@
        || e == "tarea"@ || e == "tareas"@ || e == "varios"@ || e == "otros"@ || e == "apuntes"@
}

fn es_inutil(v: &Vec<char>) -> (r: bool)
    ensures
        r == inutil(v@),
{
    let n = v.len();
    assert(v@.subrange(0, n as int) == v@);
    crate::texto::iguales(v, 0, n, "nota") || crate::texto::iguales(v, 0, n, "notas")
        || crate::texto::iguales(v, 0, n, "personal") || crate::texto::iguales(v, 0, n, "general")
        || crate::texto::iguales(v, 0, n, "recordatorio") || crate::texto::iguales(v, 0, n, "tarea")
        || crate::texto::iguales(v, 0, n, "tareas") || crate::texto::iguales(v, 0, n, "varios")
        || crate::texto::iguales(v, 0, n, "otros") || crate::texto::iguales(v, 0, n, "apuntes")
}

/// Caracteres que se conservan en una etiqueta.
pub open spec fn permitido(c: char) -> bool {
    alfanumerico(c) || c == ' ' || c == '-'
}

/// Los caracteres permitidos de `s`, en orden.
pub open spec fn solo_permitidos(s: Seq<char>) -> Seq<char>
    decreases s.len(),
{
    if s.len() == 0 {
        seq![]
    } else if permitido(s.last()) {
        solo_permitidos(s.drop_last()).push(s.last())
    } else {
        solo_permitidos(s.drop_last())
    }
}

/// Una etiqueta normalizada: sin blancos ni almohadillas delante, en
/// minúsculas, solo letras, cifras, espacios y guiones, hasta 30 caracteres
/// y sin blancos en los bordes.
pub open spec fn etiqueta_limpia(e: Seq<char>) -> Seq<char> {
    recortar(primeros(solo_permitidos(minusculas(sin_inicio(recortar(e), Clase::Almohadilla))), 30))
}

/// Si una etiqueta limpia entra tras las ya vistas.
pub open spec fn admisible(l: Seq<char>, vistas: Seq<Seq<char>>) -> bool {
    l.len() > 0 && !inutil(l) && !vistas.contains(l)
}

/// Las etiquetas limpias que entran, en orden y sin repetir.
pub open spec fn seleccion(es: Seq<Seq<char>>) -> Seq<Seq<char>>
    decreases es.len(),
{
    if es.len() == 0 {
        seq![]
    } else {
        let v = seleccion(es.drop_last());
        let l = etiqueta_limpia(es.last());
        if admisible(l, v) {
            v.push(l)
        } else {
            v
        }
    }
}

/// Si `a` y `b` tienen los mismos caracteres.
pub fn mismos(a: &Vec<char>, b: &Vec<char>) -> (r: bool)
    ensures
        r == (a@ == b@),
{
    if a.len() != b.len() {
        return false;
    }
    let mut i: usize = 0;
    while i < a.len()
        invariant
            a.len() == b.len(),
            i <= a.len(),
            forall|j: int| 0 <= j < i ==> a@[j] == b@[j],
        decreases a.len() - i,
    {
        if a[i] != b[i] {
            return false;
        }
        i = i + 1;
    }
    assert(a@ =~= b@);
    true
}

/// Si `w` está entre los textos de `vs`.
pub fn esta_en(vs: &Vec<Vec<char>>, w: &Vec<char>) -> (r: bool)
    ensures
        r == vistas(vs@).contains(w@),
{
    let mut i: usize = 0;
    while i < vs.len()
        invariant
            i <= vs.len(),
            forall|j: int| 0 <= j < i ==> vs@[j]@ != w@,
        decreases vs.len() - i,
    {
        if mismos(&vs[i], w) {
            assert(vistas(vs@)[i as int] == w@);
            return true;
        }
        i = i + 1;
    }
    assert forall|j: int| 0 <= j < vistas(vs@).len() implies vistas(vs@)[j] != w@ by {
        assert(vistas(vs@)[j] == vs@[j]@);
    }
    false
}

fn etiqueta_limpia_de(e: &str) -> (r: Vec<char>)
    ensures
        r@ == etiqueta_limpia(e@),
{
    let w = caracteres(e);
    let (a, b) = bordes(&w, 0, w.len(), Clase::Blanco);
    assert(w@.subrange(0, w@.len() as int) == w@);
    let a2 = saltar_inicio(&w, a, b, Clase::Almohadilla);
    let sin = texto_de(&w, a2, b);
    let bajas = a_minusculas(sin.as_str());
    let m = caracteres(bajas.as_str());
    let mut f: Vec<char> = Vec::new();
    let mut i: usize = 0;
    while i < m.len()
        invariant
            i <= m.len(),
            f@ == solo_permitidos(m@.take(i as int)),
        decreases m.len() - i,
    {
        assert(m@.take(i + 1).drop_last() =~= m@.take(i as int));
        let c = m[i];
        if es_alfanumerico(c) || c == ' ' || c == '-' {
            f.push(c);
        }
        i = i + 1;
    }
    assert(m@.take(m@.len() as int) =~= m@);
    let fin = if f.len() > 30 {
        30
    } else {
        f.len()
    };
    assert(f@.subrange(0, fin as int) == primeros(f@, 30));
    let (x, y) = bordes(&f, 0, fin, Clase::Blanco);
    let mut r: Vec<char> = Vec::new();
    let mut k = x;
    while k < y
        invariant
            x <= k <= y <= f.len(),
            r@ == f@.subrange(x as int, k as int),
        decreases y - k,
    {
        r.push(f[k]);
        assert(f@.subrange(x as int, k + 1) =~= f@.subrange(x as int, k as int).push(f@[k as int]));
        k = k + 1;
    }
    r
}

/// Lo que queda de una sugerencia del modelo: título sin adornos y de 60
/// caracteres como mucho; hasta cuatro etiquetas limpias, útiles y sin repetir.
pub open spec fn limpiar_spec(titulo: Seq<char>, etiquetas: Seq<Seq<char>>) -> (Seq<char>, Seq<Seq<char>>) {
    (titulo_limpio(titulo, 60), primeros(seleccion(etiquetas), 4))
}

/// El esquema acota la forma, no el contenido: el título puede venir con
/// comillas y las etiquetas repetidas o vacías. Se normaliza aquí para que la
/// base de datos no herede la creatividad del modelo.
pub fn limpiar(s: Sugerencia) -> (r: Sugerencia)
    ensures
        (r.titulo@, vistas_str(r.etiquetas@)) == limpiar_spec(s.titulo@, vistas_str(s.etiquetas@)),
{
    let titulo = titulo_recortado(s.titulo.as_str(), 60);
    let mut vistas_: Vec<Vec<char>> = Vec::new();
    let mut i: usize = 0;
    while i < s.etiquetas.len()
        invariant
            i <= s.etiquetas.len(),
            vistas(vistas_@) == seleccion(vistas_str(s.etiquetas@).take(i as int)),
        decreases s.etiquetas.len() - i,
    {
        assert(vistas_str(s.etiquetas@).take(i + 1).drop_last() =~= vistas_str(s.etiquetas@).take(
            i as int,
        ));
        assert(vistas_str(s.etiquetas@).take(i + 1).last() == s.etiquetas@[i as int]@);
        let l = etiqueta_limpia_de(s.etiquetas[i].as_str());
        if l.len() > 0 && !es_inutil(&l) && !esta_en(&vistas_, &l) {
            let ghost antes = vistas_@;
            vistas_.push(l);
            assert(vistas(vistas_@) =~= vistas(antes).push(l@));
        }
        i = i + 1;
    }
    assert(vistas_str(s.etiquetas@).take(s.etiquetas@.len() as int) =~= vistas_str(s.etiquetas@));
    let mut etiquetas: Vec<String> = Vec::new();
    let mut k: usize = 0;
    while k < vistas_.len() && k < 4
        invariant
            k <= vistas_.len(),
            k <= 4,
            vistas_str(etiquetas@) == vistas(vistas_@).take(k as int),
        decreases vistas_.len() - k,
    {
        let e = texto(&vistas_[k]);
        let ghost antes = etiquetas@;
        etiquetas.push(e);
        assert(vistas_str(etiquetas@) =~= vistas_str(antes).push(e@));
        assert(vistas(vistas_@).take(k + 1) =~= vistas(vistas_@).take(k as int).push(
            vistas_@[k as int]@,
        ));
        k = k + 1;
    }
    assert(vistas(vistas_@).take(k as int) =~= primeros(vistas(vistas_@), 4));
    Sugerencia { titulo, etiquetas }
}

} // verus!

verus! {

// ---------------------------------------------------------------------------
// Cercos de código y títulos.
// ---------------------------------------------------------------------------

pub open spec fn cerco() -> Seq<char> {
    seq!['`', '`', '`']
}

/// `trim_end_matches("```")`: fuera los cercos del final, cuantos haya.
pub open spec fn sin_cercos_finales(s: Seq<char>) -> Seq<char>
    decreases s.len(),
{
    if s.len() >= 3 && s.skip(s.len() - 3) == cerco() {
        sin_cercos_finales(s.take(s.len() - 3))
    } else {
        s
    }
}

/// Quita el cerco de código con que el modelo envuelve a veces un texto: si
/// empieza por tres acentos graves, se quita la primera línea y los cercos y
/// blancos del final.
pub open spec fn sin_cerco_spec(texto: Seq<char>) -> Seq<char> {
    let t = recortar(texto);
    if t.len() >= 3 && t.take(3) == cerco() {
        let p = posicion(t, '\n');
        let resto = if p >= 0 {
            t.skip(p + 1)
        } else {
            seq![]
        };
        recortar(sin_cercos_finales(sin_fin(resto, Clase::Blanco)))
    } else {
        t
    }
}

fn sin_cerco_en(v: &Vec<char>) -> (r: (usize, usize))
    requires
        v.len() < i64::MAX,
    ensures
        r.0 <= r.1 <= v.len(),
        v@.subrange(r.0 as int, r.1 as int) == sin_cerco_spec(v@),
{
    let (a, b) = bordes(v, 0, v.len(), Clase::Blanco);
    assert(v@.subrange(0, v@.len() as int) == v@);
    let ghost t = recortar(v@);
    if !(b - a >= 3 && v[a] == '`' && v[a + 1] == '`' && v[a + 2] == '`') {
        assert(b - a >= 3 ==> t.take(3) != cerco() || (v[a as int] == '`' && v[a + 1] == '`'
            && v[a + 2] == '`')) by {
            if b - a >= 3 && t.take(3) == cerco() {
                assert(t.take(3)[0] == v[a as int]);
                assert(t.take(3)[1] == v[a + 1]);
                assert(t.take(3)[2] == v[a + 2]);
            }
        }
        return (a, b);
    }
    assert(t.take(3) =~= cerco());
    let p = buscar(v, a, b, '\n');
    proof {
        lema_posicion(t, '\n');
    }
    let ini = if p >= 0 {
        a + p as usize + 1
    } else {
        b
    };
    assert(v@.subrange(ini as int, b as int) =~= (if posicion(t, '\n') >= 0 {
        t.skip(posicion(t, '\n') + 1)
    } else {
        seq![]
    }));
    let mut fin = saltar_fin(v, ini, b, Clase::Blanco);
    let ghost base = v@.subrange(ini as int, fin as int);
    while fin - ini >= 3 && v[fin - 1] == '`' && v[fin - 2] == '`' && v[fin - 3] == '`'
        invariant
            ini <= fin <= v.len(),
            sin_cercos_finales(base) == sin_cercos_finales(v@.subrange(ini as int, fin as int)),
        decreases fin - ini,
    {
        let ghost w = v@.subrange(ini as int, fin as int);
        assert(w.skip(w.len() - 3) =~= cerco());
        assert(w.take(w.len() - 3) =~= v@.subrange(ini as int, fin - 3));
        fin = fin - 3;
    }
    let ghost w = v@.subrange(ini as int, fin as int);
    assert(w.len() >= 3 ==> w.skip(w.len() - 3) != cerco()) by {
        if w.len() >= 3 && w.skip(w.len() - 3) == cerco() {
            assert(w.skip(w.len() - 3)[0] == v[fin - 3]);
            assert(w.skip(w.len() - 3)[1] == v[fin - 2]);
            assert(w.skip(w.len() - 3)[2] == v[fin - 1]);
        }
    }
    bordes(v, ini, fin, Clase::Blanco)
}

/// Quita el cerco de código con que el modelo envuelve a veces un texto.
pub fn sin_cerco(texto: &str) -> (r: String)
    requires
        texto@.len() < i64::MAX,
    ensures
        r@ == sin_cerco_spec(texto@),
{
    let v = caracteres(texto);
    let (a, b) = sin_cerco_en(&v);
    texto_de(&v, a, b)
}

/// El documento del modelo con el título sin adornos (80 caracteres como
/// mucho) y el markdown sin cerco de código.
pub fn limpiar_documento(d: Documento) -> (r: Documento)
    requires
        d.markdown@.len() < i64::MAX,
    ensures
        r.titulo@ == titulo_limpio(d.titulo@, 80),
        r.markdown@ == sin_cerco_spec(d.markdown@),
{
    Documento {
        titulo: titulo_recortado(d.titulo.as_str(), 80),
        markdown: sin_cerco(d.markdown.as_str()),
    }
}

/// Cuántas almohadillas abren la línea.
pub open spec fn almohadillas(l: Seq<char>) -> int {
    l.len() - sin_inicio(l, Clase::Almohadilla).len()
}

/// Un título de primer a tercer nivel baja a cuarto; lo demás se queda igual.
pub open spec fn linea_bajada(l: Seq<char>) -> Seq<char> {
    let n = almohadillas(l);
    if 1 <= n < 4 && n < l.len() && l[n] == ' ' {
        seq!['#', '#', '#', '#'] + l.skip(n)
    } else {
        l
    }
}

pub open spec fn bajar_spec(t: Seq<char>) -> Seq<char> {
    unir(lineas(t).map_values(|l: Seq<char>| linea_bajada(l)), seq!['\n'])
}

/// Un rol va bajo un `###` en el informe: cualquier título que se le escape
/// al modelo baja a cuarto nivel para no romper la estructura.
pub fn bajar_titulos(texto: &str) -> (r: String)
    ensures
        r@ == bajar_spec(texto@),
{
    let v = caracteres(texto);
    let ls = lineas_de(&v);
    let mut out: Vec<Vec<char>> = Vec::new();
    let mut i: usize = 0;
    while i < ls.len()
        invariant
            i <= ls.len(),
            vistas(ls@) == lineas(v@),
            vistas(out@) == vistas(ls@).take(i as int).map_values(|l: Seq<char>| linea_bajada(l)),
        decreases ls.len() - i,
    {
        let l = &ls[i];
        let k = saltar_inicio(l, 0, l.len(), Clase::Almohadilla);
        assert(l@.subrange(0, l@.len() as int) == l@);
        proof {
            lema_sin_inicio_es_sufijo(l@, Clase::Almohadilla);
        }
        assert(almohadillas(l@) == k);
        let nueva: Vec<char> = if 1 <= k && k < 4 && k < l.len() && l[k] == ' ' {
            let mut n: Vec<char> = Vec::new();
            n.push('#');
            n.push('#');
            n.push('#');
            n.push('#');
            let mut j = k;
            while j < l.len()
                invariant
                    k <= j <= l.len(),
                    n@ == seq!['#', '#', '#', '#'] + l@.subrange(k as int, j as int),
                decreases l.len() - j,
            {
                n.push(l[j]);
                assert(l@.subrange(k as int, j + 1) =~= l@.subrange(k as int, j as int).push(
                    l@[j as int],
                ));
                j = j + 1;
            }
            assert(l@.subrange(k as int, l@.len() as int) =~= l@.skip(k as int));
            n
        } else {
            copia(l)
        };
        let ghost antes = out@;
        out.push(nueva);
        assert(vistas(out@) =~= vistas(antes).push(nueva@));
        assert(vistas(ls@)[i as int] == ls@[i as int]@);
        assert(vistas(ls@).take(i + 1).map_values(|l: Seq<char>| linea_bajada(l)) =~= vistas(
            ls@,
        ).take(i as int).map_values(|l: Seq<char>| linea_bajada(l)).push(nueva@));
        i = i + 1;
    }
    assert(vistas(ls@).take(ls@.len() as int) =~= vistas(ls@));
    proof {
        reveal_strlit("\n");
    }
    assert("\n"@ =~= seq!['\n']);
    unir_de(&out, "\n")
}

// ---------------------------------------------------------------------------
// Valores en la query string.
// ---------------------------------------------------------------------------

/// Bytes que van tal cual en la query string.
pub open spec fn byte_seguro(b: u8) -> bool {
    (65 <= b <= 90) || (97 <= b <= 122) || (48 <= b <= 57) || b == 45 || b == 95 || b == 46 || b
        == 126
}

/// Cifra hexadecimal en mayúsculas.
pub open spec fn hex(n: int) -> char {
    if n < 10 {
        crate::texto::digito(n)
    } else if n == 10 {
        'A'
    } else if n == 11 {
        'B'
    } else if n == 12 {
        'C'
    } else if n == 13 {
        'D'
    } else if n == 14 {
        'E'
    } else {
        'F'
    }
}

/// Cada byte seguro tal cual y los demás como `%XX`.
pub open spec fn codificado(bs: Seq<u8>) -> Seq<char>
    decreases bs.len(),
{
    if bs.len() == 0 {
        seq![]
    } else {
        let b = bs.last();
        codificado(bs.drop_last()) + if byte_seguro(b) {
            seq![b as char]
        } else {
            seq!['%', hex(b as int / 16), hex(b as int % 16)]
        }
    }
}

fn cifra_hex(n: u8) -> (c: char)
    requires
        n < 16,
    ensures
        c == hex(n as int),
{
    if n == 0 {
        '0'
    } else if n == 1 {
        '1'
    } else if n == 2 {
        '2'
    } else if n == 3 {
        '3'
    } else if n == 4 {
        '4'
    } else if n == 5 {
        '5'
    } else if n == 6 {
        '6'
    } else if n == 7 {
        '7'
    } else if n == 8 {
        '8'
    } else if n == 9 {
        '9'
    } else if n == 10 {
        'A'
    } else if n == 11 {
        'B'
    } else if n == 12 {
        'C'
    } else if n == 13 {
        'D'
    } else if n == 14 {
        'E'
    } else {
        'F'
    }
}

/// Lo justo para meter un valor en la query string: los bytes de su UTF-8,
/// los seguros tal cual y los demás como `%XX`.
pub fn codificar(v: &str) -> (r: String)
    ensures
        r@ == codificado(v.spec_bytes()),
{
    let bs = v.as_bytes();
    let mut r = String::new();
    let mut i: usize = 0;
    while i < bs.len()
        invariant
            i <= bs.len(),
            bs@ == v.spec_bytes(),
            r@ == codificado(bs@.take(i as int)),
        decreases bs.len() - i,
    {
        let b = bs[i];
        assert(bs@.take(i + 1).drop_last() =~= bs@.take(i as int));
        assert(bs@.take(i + 1).last() == b);
        let seguro = (65 <= b && b <= 90) || (97 <= b && b <= 122) || (48 <= b && b <= 57) || b
            == 45 || b == 95 || b == 46 || b == 126;
        if seguro {
            empujar(&mut r, b as char);
        } else {
            empujar(&mut r, '%');
            empujar(&mut r, cifra_hex(b / 16));
            empujar(&mut r, cifra_hex(b % 16));
        }
        assert(r@ =~= codificado(bs@.take(i + 1)));
        i = i + 1;
    }
    assert(bs@.take(bs@.len() as int) =~= bs@);
    r
}

} // verus!

verus! {

// ---------------------------------------------------------------------------
// El material que se le envía al modelo.
// ---------------------------------------------------------------------------

/// Tope de material que entra en un documento: pasado esto se recorta y el
/// documento lo dice.
pub const MAXIMO_DOCUMENTO: usize = 30000;

/// La cabecera de la nota `i` (desde cero) en el material.
pub open spec fn cabecera_nota(i: int, n: NotaFuente) -> Seq<char> {
    "### Nota "@ + decimal((i + 1) as nat) + " — "@ + n.titulo@ + " ("@ + n.creada_en@ + ")"@ + (
    if n.etiquetas@.len() == 0 {
        "\n"@
    } else {
        " · etiquetas: "@ + unir(vistas_str(n.etiquetas@), ", "@) + "\n"@
    })
}

/// Cuánto contenido entra de una nota: su parte del tope, y nunca más de lo
/// que queda libre.
pub open spec fn espacio_nota(usado: int, cabecera: int, total: int) -> int {
    let sitio = if MAXIMO_DOCUMENTO - (usado + cabecera) > 0 {
        MAXIMO_DOCUMENTO - (usado + cabecera)
    } else {
        0
    };
    let cuota = MAXIMO_DOCUMENTO as int / (if total > 1 {
        total
    } else {
        1
    });
    if cuota < sitio {
        cuota
    } else {
        sitio
    }
}

/// Las notas de `ns` una tras otra, y cuántas se recortaron.
pub open spec fn material_parcial(ns: Seq<NotaFuente>, total: int) -> (Seq<char>, nat)
    decreases ns.len(),
{
    if ns.len() == 0 {
        (seq![], 0)
    } else {
        let (m, r) = material_parcial(ns.drop_last(), total);
        let n = ns.last();
        let cab = cabecera_nota(ns.len() - 1, n);
        let c = primeros(n.contenido@, espacio_nota(m.len() as int, cab.len() as int, total));
        (m + cab + c + "\n\n"@, r + if c.len() < n.contenido@.len() {
            1nat
        } else {
            0nat
        })
    }
}

/// Las notas en el formato que lee el modelo, recortadas por nota si no
/// caben, con un aviso al final que dice dónde contar el recorte.
pub open spec fn material_spec(ns: Seq<NotaFuente>, aviso: Seq<char>) -> Seq<char> {
    let (m, r) = material_parcial(ns, ns.len() as int);
    if r > 0 {
        m + "(Aviso: "@ + decimal(r) + " nota(s) se han recortado por longitud; "@ + aviso
            + ".)\n"@
    } else {
        m
    }
}

fn anadir_cabecera(m: &mut String, i: usize, n: &NotaFuente)
    requires
        i < u64::MAX,
    ensures
        final(m)@ == old(m)@ + cabecera_nota(i as int, *n),
{
    anadir_str(m, "### Nota ");
    anadir_decimal(m, i as u64 + 1);
    anadir_str(m, " — ");
    anadir_str(m, n.titulo.as_str());
    anadir_str(m, " (");
    anadir_str(m, n.creada_en.as_str());
    anadir_str(m, ")");
    if n.etiquetas.len() == 0 {
        anadir_str(m, "\n");
    } else {
        anadir_str(m, " · etiquetas: ");
        let j = unir_strings(&n.etiquetas, ", ");
        anadir_str(m, j.as_str());
        anadir_str(m, "\n");
    }
    assert(final(m)@ =~= old(m)@ + cabecera_nota(i as int, *n));
}

/// Las notas en el formato que lee el modelo, recortadas por nota si no
/// caben (con veinte notas largas, un corte global dejaría fuera las
/// últimas). `aviso` dice dónde tiene que contar el modelo que hubo recorte.
pub fn material_de(notas: &[NotaFuente], aviso: &str) -> (r: String)
    requires
        notas@.len() < u64::MAX,
    ensures
        r@ == material_spec(notas@, aviso@),
{
    let mut material = String::new();
    let mut recortadas: u64 = 0;
    let total = notas.len();
    let mut i: usize = 0;
    while i < notas.len()
        invariant
            i <= notas.len() == total < u64::MAX,
            recortadas <= i,
            (material@, recortadas as nat) == material_parcial(notas@.take(i as int), total as int),
        decreases notas.len() - i,
    {
        assert(notas@.take(i + 1).drop_last() =~= notas@.take(i as int));
        assert(notas@.take(i + 1).last() == notas@[i as int]);
        let n = &notas[i];
        let mut cabecera = String::new();
        anadir_cabecera(&mut cabecera, i, n);
        let usado = material.as_str().unicode_len() as u128 + cabecera.as_str().unicode_len() as u128;
        let sitio: u128 = if (MAXIMO_DOCUMENTO as u128) > usado {
            MAXIMO_DOCUMENTO as u128 - usado
        } else {
            0
        };
        let cuota: u128 = (MAXIMO_DOCUMENTO / (if total > 1 {
            total
        } else {
            1
        })) as u128;
        let por_nota = if cuota < sitio {
            cuota as usize
        } else {
            sitio as usize
        };
        let w = caracteres(n.contenido.as_str());
        let fin = if por_nota < w.len() {
            por_nota
        } else {
            w.len()
        };
        assert(w@.subrange(0, fin as int) == primeros(w@, por_nota as int));
        let contenido = texto_de(&w, 0, fin);
        if fin < w.len() {
            recortadas = recortadas + 1;
        }
        anadir_str(&mut material, cabecera.as_str());
        anadir_str(&mut material, contenido.as_str());
        anadir_str(&mut material, "\n\n");
        i = i + 1;
    }
    assert(notas@.take(notas@.len() as int) =~= notas@);
    if recortadas > 0 {
        anadir_str(&mut material, "(Aviso: ");
        anadir_decimal(&mut material, recortadas);
        anadir_str(&mut material, " nota(s) se han recortado por longitud; ");
        anadir_str(&mut material, aviso);
        anadir_str(&mut material, ".)\n");
    }
    material
}

/// La instrucción del usuario, si la hay, por delante de todo lo demás.
pub open spec fn encargo_spec(instruccion: Seq<char>) -> Seq<char> {
    let i = recortar(instruccion);
    if i.len() == 0 {
        seq![]
    } else {
        "Instrucción del usuario para este documento, por encima de todo lo demás: "@ + i
            + "\n\n"@
    }
}

/// La instrucción del usuario, si la hay, por delante de todo lo demás.
pub fn encargo_de(instruccion: &str) -> (r: String)
    ensures
        r@ == encargo_spec(instruccion@),
{
    let i = recortado(instruccion);
    let mut r = String::new();
    if i.as_str().unicode_len() > 0 {
        anadir_str(&mut r, "Instrucción del usuario para este documento, por encima de todo lo demás: ");
        anadir_str(&mut r, i.as_str());
        anadir_str(&mut r, "\n\n");
    }
    assert(r@ =~= encargo_spec(instruccion@));
    r
}

/// El proyecto como contexto para el modelo.
pub open spec fn contexto_spec(proyecto: Option<Proyecto>) -> Seq<char> {
    match proyecto {
        None => seq![],
        Some(p) => if recortar(p.descripcion@).len() == 0 {
            "Todas las notas son del proyecto «"@ + p.nombre@ + "».\n\n"@
        } else {
            "Todas las notas son del proyecto «"@ + p.nombre@ + "»: "@ + recortar(p.descripcion@)
                + "\n\n"@
        },
    }
}

pub open spec fn opcion_proyecto(p: Option<&Proyecto>) -> Option<Proyecto> {
    match p {
        Some(x) => Some(*x),
        None => None,
    }
}

/// El proyecto como contexto para el modelo.
pub fn contexto_de(proyecto: Option<&Proyecto>) -> (r: String)
    ensures
        r@ == contexto_spec(opcion_proyecto(proyecto)),
{
    let mut r = String::new();
    match proyecto {
        None => {},
        Some(p) => {
            let d = recortado(p.descripcion.as_str());
            anadir_str(&mut r, "Todas las notas son del proyecto «");
            anadir_str(&mut r, p.nombre.as_str());
            if d.as_str().unicode_len() == 0 {
                anadir_str(&mut r, "».\n\n");
            } else {
                anadir_str(&mut r, "»: ");
                anadir_str(&mut r, d.as_str());
                anadir_str(&mut r, "\n\n");
            }
        },
    }
    assert(r@ =~= contexto_spec(opcion_proyecto(proyecto)));
    r
}

} // verus!

verus! {

// ---------------------------------------------------------------------------
// Los textos de cada encargo.
// ---------------------------------------------------------------------------

/// Hablantes cuando no se sabe con quién es la conversación.
pub const HABLANTES_SIN_NOMBRE: &'static str = "Son dos personas: llámalas «Entrevistador» (quien hace las preguntas) y «Entrevistado». Si en la conversación se dice el nombre de alguna, usa el nombre a partir de ahí.";

/// Lo que se le dice al modelo junto a un trozo de audio: de qué proyecto
/// es, qué trozo es de cuántos, quién habla y cómo acabó el trozo anterior.
pub open spec fn texto_transcripcion_spec(
    n: int,
    total: int,
    con_quien: Seq<char>,
    proyecto: Option<Proyecto>,
    cola_anterior: Seq<char>,
) -> Seq<char> {
    let q = recortar(con_quien);
    let c = recortar(cola_anterior);
    (match proyecto {
        Some(p) => "La conversación es del proyecto «"@ + p.nombre@ + "». "@,
        None => seq![],
    }) + "Fragmento "@ + decimal((n + 1) as nat) + " de "@ + decimal(total as nat)
        + " de la conversación. "@ + (if q.len() == 0 {
        HABLANTES_SIN_NOMBRE@
    } else {
        "Son dos personas: «Entrevistador» (quien hace las preguntas) y la persona entrevistada, que es: "@
            + q + ". Llama a esta por su nombre de pila."@
    }) + (if c.len() == 0 {
        seq![]
    } else {
        "\n\nAsí terminaba el fragmento anterior; mantén exactamente los mismos nombres de hablante:\n"@
            + c
    })
}

/// Lo que se le dice al modelo junto a un trozo de audio.
pub fn texto_transcripcion(ctx: &ContextoTrozo) -> (r: String)
    requires
        ctx.n < u64::MAX,
    ensures
        r@ == texto_transcripcion_spec(
            ctx.n as int,
            ctx.total as int,
            ctx.con_quien@,
            opcion_proyecto(ctx.proyecto),
            ctx.cola_anterior@,
        ),
{
    let mut r = String::new();
    match ctx.proyecto {
        Some(p) => {
            anadir_str(&mut r, "La conversación es del proyecto «");
            anadir_str(&mut r, p.nombre.as_str());
            anadir_str(&mut r, "». ");
        },
        None => {},
    }
    anadir_str(&mut r, "Fragmento ");
    anadir_decimal(&mut r, ctx.n as u64 + 1);
    anadir_str(&mut r, " de ");
    anadir_decimal(&mut r, ctx.total as u64);
    anadir_str(&mut r, " de la conversación. ");
    let q = recortado(ctx.con_quien);
    if q.as_str().unicode_len() == 0 {
        anadir_str(&mut r, HABLANTES_SIN_NOMBRE);
    } else {
        anadir_str(
            &mut r,
            "Son dos personas: «Entrevistador» (quien hace las preguntas) y la persona entrevistada, que es: ",
        );
        anadir_str(&mut r, q.as_str());
        anadir_str(&mut r, ". Llama a esta por su nombre de pila.");
    }
    let c = recortado(ctx.cola_anterior);
    if c.as_str().unicode_len() > 0 {
        anadir_str(
            &mut r,
            "\n\nAsí terminaba el fragmento anterior; mantén exactamente los mismos nombres de hablante:\n",
        );
        anadir_str(&mut r, c.as_str());
    }
    assert(r@ =~= texto_transcripcion_spec(
        ctx.n as int,
        ctx.total as int,
        ctx.con_quien@,
        opcion_proyecto(ctx.proyecto),
        ctx.cola_anterior@,
    ));
    r
}

/// Tope de transcripción que se envía para resumir.
pub const MAXIMO_TRANSCRIPCION: usize = 120000;

/// Lo que se le pide al modelo para resumir una entrevista: proyecto, con
/// quién, duración y la transcripción, recortada si es desmesurada (y
/// entonces se le avisa).
pub open spec fn mensaje_resumen_spec(
    transcripcion: Seq<char>,
    con_quien: Seq<char>,
    duracion: Seq<char>,
    proyecto: Option<Proyecto>,
) -> Seq<char> {
    let recorte = primeros(transcripcion, MAXIMO_TRANSCRIPCION as int);
    let q = recortar(con_quien);
    (match proyecto {
        None => seq![],
        Some(p) => if recortar(p.descripcion@).len() == 0 {
            "Es una entrevista del proyecto «"@ + p.nombre@ + "».\n"@
        } else {
            "Es una entrevista del proyecto «"@ + p.nombre@ + "»: "@ + recortar(p.descripcion@)
                + "\n"@
        },
    }) + (if q.len() == 0 {
        seq![]
    } else {
        "La persona entrevistada es: "@ + q + ".\n"@
    }) + "Duración: "@ + duracion + ".\n\nTranscripción:\n\n"@ + recorte + (if recorte.len()
        < transcripcion.len() {
        "\n\n(La transcripción se ha recortado por longitud: dilo en el resumen amplio.)"@
    } else {
        seq![]
    })
}

/// Lo que se le pide al modelo para resumir una entrevista.
pub fn mensaje_resumen(
    transcripcion: &str,
    con_quien: &str,
    duracion: &str,
    proyecto: Option<&Proyecto>,
) -> (r: String)
    ensures
        r@ == mensaje_resumen_spec(transcripcion@, con_quien@, duracion@, opcion_proyecto(proyecto)),
{
    let mut r = String::new();
    match proyecto {
        None => {},
        Some(p) => {
            let d = recortado(p.descripcion.as_str());
            anadir_str(&mut r, "Es una entrevista del proyecto «");
            anadir_str(&mut r, p.nombre.as_str());
            if d.as_str().unicode_len() == 0 {
                anadir_str(&mut r, "».\n");
            } else {
                anadir_str(&mut r, "»: ");
                anadir_str(&mut r, d.as_str());
                anadir_str(&mut r, "\n");
            }
        },
    }
    let q = recortado(con_quien);
    if q.as_str().unicode_len() > 0 {
        anadir_str(&mut r, "La persona entrevistada es: ");
        anadir_str(&mut r, q.as_str());
        anadir_str(&mut r, ".\n");
    }
    anadir_str(&mut r, "Duración: ");
    anadir_str(&mut r, duracion);
    anadir_str(&mut r, ".\n\nTranscripción:\n\n");
    let v = caracteres(transcripcion);
    let fin = if v.len() > MAXIMO_TRANSCRIPCION {
        MAXIMO_TRANSCRIPCION
    } else {
        v.len()
    };
    assert(v@.subrange(0, fin as int) == primeros(v@, MAXIMO_TRANSCRIPCION as int));
    let recorte = texto_de(&v, 0, fin);
    anadir_str(&mut r, recorte.as_str());
    if fin < v.len() {
        anadir_str(
            &mut r,
            "\n\n(La transcripción se ha recortado por longitud: dilo en el resumen amplio.)",
        );
    }
    assert(r@ =~= mensaje_resumen_spec(
        transcripcion@,
        con_quien@,
        duracion@,
        opcion_proyecto(proyecto),
    ));
    r
}

/// Recorte del contenido de una nota que se envía para titularla.
pub const MAXIMO_CONTENIDO: usize = 4000;

/// Cuántas etiquetas ya existentes se le enseñan al modelo.
pub const ETIQUETAS_DE_CONTEXTO: usize = 40;

/// Lo que se le pide al modelo para titular una nota: las etiquetas que ya
/// existen (las 40 primeras) para que las reutilice, y la nota recortada.
pub open spec fn mensaje_titular_spec(contenido: Seq<char>, existentes: Seq<Seq<char>>) -> Seq<char> {
    let conocidas = primeros(existentes, ETIQUETAS_DE_CONTEXTO as int);
    (if conocidas.len() == 0 {
        "No hay etiquetas previas: crea las que la nota pida."@
    } else {
        "Etiquetas que ya existen, reutilízalas antes de inventar una nueva: "@ + unir(
            conocidas,
            ", "@,
        ) + "."@
    }) + "\n\nNota:\n"@ + primeros(contenido, MAXIMO_CONTENIDO as int)
}

/// Lo que se le pide al modelo para titular una nota.
pub fn mensaje_titular(contenido: &str, existentes: &Vec<String>) -> (r: String)
    ensures
        r@ == mensaje_titular_spec(contenido@, vistas_str(existentes@)),
{
    let mut conocidas: Vec<String> = Vec::new();
    let mut i: usize = 0;
    while i < existentes.len() && i < ETIQUETAS_DE_CONTEXTO
        invariant
            i <= existentes.len(),
            i <= ETIQUETAS_DE_CONTEXTO,
            vistas_str(conocidas@) == vistas_str(existentes@).take(i as int),
        decreases existentes.len() - i,
    {
        let e = existentes[i].clone();
        let ghost antes = conocidas@;
        conocidas.push(e);
        assert(vistas_str(conocidas@) =~= vistas_str(antes).push(e@));
        assert(vistas_str(existentes@).take(i + 1) =~= vistas_str(existentes@).take(i as int).push(
            existentes@[i as int]@,
        ));
        i = i + 1;
    }
    assert(vistas_str(existentes@).take(i as int) =~= primeros(
        vistas_str(existentes@),
        ETIQUETAS_DE_CONTEXTO as int,
    ));
    let mut r = String::new();
    if conocidas.len() == 0 {
        anadir_str(&mut r, "No hay etiquetas previas: crea las que la nota pida.");
    } else {
        anadir_str(&mut r, "Etiquetas que ya existen, reutilízalas antes de inventar una nueva: ");
        let j = unir_strings(&conocidas, ", ");
        anadir_str(&mut r, j.as_str());
        anadir_str(&mut r, ".");
    }
    anadir_str(&mut r, "\n\nNota:\n");
    let v = caracteres(contenido);
    let fin = if v.len() > MAXIMO_CONTENIDO {
        MAXIMO_CONTENIDO
    } else {
        v.len()
    };
    assert(v@.subrange(0, fin as int) == primeros(v@, MAXIMO_CONTENIDO as int));
    let recorte = texto_de(&v, 0, fin);
    anadir_str(&mut r, recorte.as_str());
    assert(r@ =~= mensaje_titular_spec(contenido@, vistas_str(existentes@)));
    r
}

/// Lo que se le pide al modelo con un conjunto de notas: la instrucción del
/// usuario, el proyecto y las notas, de la más antigua a la más reciente.
pub open spec fn mensaje_notas_spec(
    notas: Seq<NotaFuente>,
    instruccion: Seq<char>,
    proyecto: Option<Proyecto>,
    aviso: Seq<char>,
) -> Seq<char> {
    encargo_spec(instruccion) + contexto_spec(proyecto)
        + "Notas dictadas, de la más antigua a la más reciente:\n\n"@ + material_spec(notas, aviso)
}

/// Lo que se le pide al modelo con un conjunto de notas.
pub fn mensaje_notas(
    notas: &[NotaFuente],
    instruccion: &str,
    proyecto: Option<&Proyecto>,
    aviso: &str,
) -> (r: String)
    requires
        notas@.len() < u64::MAX,
    ensures
        r@ == mensaje_notas_spec(notas@, instruccion@, opcion_proyecto(proyecto), aviso@),
{
    let mut r = encargo_de(instruccion);
    let c = contexto_de(proyecto);
    anadir_str(&mut r, c.as_str());
    anadir_str(&mut r, "Notas dictadas, de la más antigua a la más reciente:\n\n");
    let m = material_de(notas, aviso);
    anadir_str(&mut r, m.as_str());
    assert(r@ =~= mensaje_notas_spec(notas@, instruccion@, opcion_proyecto(proyecto), aviso@));
    r
}

} // verus!

verus! {

/// Lo que se le dice a un rol sobre sí mismo, el formato de su respuesta y las reglas.
pub open spec fn sistema_rol_spec(nombre: Seq<char>, icono: Seq<char>, enfoque: Seq<char>) -> Seq<
    char,
> {
    "Eres el rol «"@ + nombre + "» ("@ + icono
        + ") de un equipo que analiza notas personales dictadas sobre un proyecto o una idea. Tu enfoque: "@
        + recortar(enfoque) + REGLAS_ROL@
}

/// El formato y las reglas comunes a todos los roles.
pub const REGLAS_ROL: &'static str = "\n\nLee todas las notas y analízalas desde ese enfoque y solo desde ese: otros roles cubren lo demás. Devuelve solo markdown, sin ningún encabezado con almohadillas, con exactamente estas cuatro partes y en este orden:\n**Veredicto:** una o dos frases con tu conclusión.\n**Hallazgos** y debajo una lista con guiones de 3 a 6 puntos; cada uno es una idea concreta que se apoya en lo que dicen las notas.\n**Recomendaciones** y debajo una lista numerada de 2 a 5 acciones concretas.\n**Preguntas abiertas** y debajo una lista con guiones de 1 a 3 preguntas cerradas que habría que contestar.\n\nReglas: no inventes datos que las notas no den; si te falta información para tu enfoque, dilo en Hallazgos. Una cifra que no salga de las notas va marcada como orden de magnitud. Español, tono directo, sin preámbulos ni cortesías y sin hablar de ti mismo ni del proceso.";

/// Lo que se le dice a un rol sobre sí mismo.
pub fn sistema_rol(rol: &RolPedido) -> (r: String)
    ensures
        r@ == sistema_rol_spec(rol.nombre@, rol.icono@, rol.enfoque@),
{
    let mut r = String::new();
    anadir_str(&mut r, "Eres el rol «");
    anadir_str(&mut r, rol.nombre);
    anadir_str(&mut r, "» (");
    anadir_str(&mut r, rol.icono);
    anadir_str(
        &mut r,
        ") de un equipo que analiza notas personales dictadas sobre un proyecto o una idea. Tu enfoque: ",
    );
    let e = recortado(rol.enfoque);
    anadir_str(&mut r, e.as_str());
    anadir_str(&mut r, REGLAS_ROL);
    assert(r@ =~= sistema_rol_spec(rol.nombre@, rol.icono@, rol.enfoque@));
    r
}

pub open spec fn analisis_vistos(a: Seq<AnalisisHecho>) -> Seq<(Seq<char>, Seq<char>, Seq<char>)> {
    a.map_values(|x: AnalisisHecho| (x.nombre@, x.icono@, x.texto@))
}

/// Lo de cada rol para la síntesis: icono y nombre como título y su texto.
pub open spec fn roles_sintesis_spec(a: Seq<(Seq<char>, Seq<char>, Seq<char>)>) -> Seq<char>
    decreases a.len(),
{
    if a.len() == 0 {
        seq![]
    } else {
        roles_sintesis_spec(a.drop_last()) + "### "@ + a.last().1 + " "@ + a.last().0 + "\n\n"@
            + recortar(a.last().2) + "\n\n"@
    }
}

/// Tensiones cuando solo hay un rol.
pub const TENSIONES_UN_ROL: &'static str = "Como solo hay un rol, en «Tensiones entre roles» escribe una sola línea que diga que con un rol no hay tensiones que comparar.";

/// Tensiones cuando hay varios roles.
pub const TENSIONES_VARIOS: &'static str = "En «Tensiones entre roles», cada punto va como `**Rol A ↔ Rol B:** en qué chocan y qué propones`; si no chocan en nada importante, una línea que lo diga.";

/// Cabecera del encargo de la síntesis.
pub const SINTESIS_ANTES: &'static str = "Coordinas un equipo de analistas que ha revisado las mismas notas desde enfoques distintos. Recibes las notas y el análisis de cada rol, y escribes la cabecera de un informe único. Devuelve solo markdown con esta estructura exacta:\n`# ` y el título: una frase corta y concreta sobre de qué va el informe, sin comillas ni punto final.\n`## Resumen ejecutivo`: un párrafo de cinco a ocho líneas para alguien que no ha leído nada: qué es, qué concluyen los roles y cuál es el mayor riesgo.\n`## Conclusiones clave`: lista numerada de 3 a 6 conclusiones en las que coinciden varios roles, cada una empezando por la idea en negrita.\n`## Tensiones entre roles`: ";

/// Resto del encargo de la síntesis.
pub const SINTESIS_DESPUES: &'static str = "\n`## Plan de acción`: lista numerada de 3 a 7 acciones ordenadas por prioridad; cada una empieza por **Alta**, **Media** o **Baja** seguida de una raya.\n`## Preguntas abiertas`: lista con guiones de las preguntas más importantes que quedan, sin repetirlas.\n\nReglas: no copies el análisis de cada rol, que va entero detrás; sintetiza y cruza. No inventes nada que no esté en las notas o en los análisis. No escribas ninguna otra sección: el resto del informe lo añade la aplicación. Español, tono directo, sin preámbulos ni cortesías.";

/// El encargo de la síntesis: con un solo rol no hay tensiones que comparar.
pub open spec fn sistema_sintesis_spec(roles: int) -> Seq<char> {
    SINTESIS_ANTES@ + (if roles == 1 {
        TENSIONES_UN_ROL@
    } else {
        TENSIONES_VARIOS@
    }) + SINTESIS_DESPUES@
}

/// El encargo de la síntesis para `roles` análisis.
pub fn sistema_sintesis(roles: usize) -> (r: String)
    ensures
        r@ == sistema_sintesis_spec(roles as int),
{
    let mut r = String::new();
    anadir_str(&mut r, SINTESIS_ANTES);
    if roles == 1 {
        anadir_str(&mut r, TENSIONES_UN_ROL);
    } else {
        anadir_str(&mut r, TENSIONES_VARIOS);
    }
    anadir_str(&mut r, SINTESIS_DESPUES);
    r
}

/// Lo que se le pide a la síntesis: las notas y el análisis de cada rol.
pub open spec fn mensaje_sintesis_spec(
    notas: Seq<NotaFuente>,
    instruccion: Seq<char>,
    proyecto: Option<Proyecto>,
    analisis: Seq<AnalisisHecho>,
) -> Seq<char> {
    mensaje_notas_spec(notas, instruccion, proyecto, "dilo en «Preguntas abiertas»"@)
        + "\n\nAnálisis de cada rol:\n\n"@ + roles_sintesis_spec(analisis_vistos(analisis))
}

/// Lo que se le pide a la síntesis.
pub fn mensaje_sintesis(
    notas: &[NotaFuente],
    instruccion: &str,
    proyecto: Option<&Proyecto>,
    analisis: &[AnalisisHecho],
) -> (r: String)
    requires
        notas@.len() < u64::MAX,
    ensures
        r@ == mensaje_sintesis_spec(notas@, instruccion@, opcion_proyecto(proyecto), analisis@),
{
    let mut r = mensaje_notas(notas, instruccion, proyecto, "dilo en «Preguntas abiertas»");
    anadir_str(&mut r, "\n\nAnálisis de cada rol:\n\n");
    let ghost base = r@;
    let mut i: usize = 0;
    while i < analisis.len()
        invariant
            i <= analisis.len(),
            r@ == base + roles_sintesis_spec(analisis_vistos(analisis@).take(i as int)),
        decreases analisis.len() - i,
    {
        let a = &analisis[i];
        assert(analisis_vistos(analisis@).take(i + 1).drop_last() =~= analisis_vistos(
            analisis@,
        ).take(i as int));
        assert(analisis_vistos(analisis@).take(i + 1).last() == (a.nombre@, a.icono@, a.texto@));
        anadir_str(&mut r, "### ");
        anadir_str(&mut r, a.icono);
        anadir_str(&mut r, " ");
        anadir_str(&mut r, a.nombre);
        anadir_str(&mut r, "\n\n");
        let t = recortado(a.texto);
        anadir_str(&mut r, t.as_str());
        anadir_str(&mut r, "\n\n");
        assert(r@ =~= base + roles_sintesis_spec(analisis_vistos(analisis@).take(i + 1)));
        i = i + 1;
    }
    assert(analisis_vistos(analisis@).take(analisis@.len() as int) =~= analisis_vistos(
        analisis@,
    ));
    r
}

// ---------------------------------------------------------------------------
// Lo que se hace con cada respuesta del modelo.
// ---------------------------------------------------------------------------

/// La transcripción de un trozo sin cerco; vacía es un error.
pub fn pulir_transcripcion(texto: &str) -> (r: Result<String, String>)
    requires
        texto@.len() < i64::MAX,
    ensures
        match r {
            Ok(t) => t@ == sin_cerco_spec(texto@) && t@.len() > 0,
            Err(e) => sin_cerco_spec(texto@).len() == 0 && e@
                == "el modelo devolvió una transcripción vacía"@,
        },
{
    let t = sin_cerco(texto);
    if t.as_str().unicode_len() == 0 {
        return Err(String::from_str("el modelo devolvió una transcripción vacía"));
    }
    Ok(t)
}

/// El análisis de un rol sin cerco y con los títulos bajados; vacío (solo
/// blancos) es un error.
pub fn pulir_analisis(texto: &str) -> (r: Result<String, String>)
    requires
        texto@.len() < i64::MAX,
    ensures
        match r {
            Ok(t) => t@ == bajar_spec(sin_cerco_spec(texto@)) && recortar(t@).len() > 0,
            Err(e) => recortar(bajar_spec(sin_cerco_spec(texto@))).len() == 0 && e@
                == "el modelo devolvió un análisis vacío"@,
        },
{
    let limpio = sin_cerco(texto);
    let t = bajar_titulos(limpio.as_str());
    let r = recortado(t.as_str());
    if r.as_str().unicode_len() == 0 {
        return Err(String::from_str("el modelo devolvió un análisis vacío"));
    }
    Ok(t)
}

/// La síntesis sin cerco; vacía (solo blancos) es un error.
pub fn pulir_sintesis(texto: &str) -> (r: Result<String, String>)
    requires
        texto@.len() < i64::MAX,
    ensures
        match r {
            Ok(t) => t@ == sin_cerco_spec(texto@) && t@.len() > 0,
            Err(e) => sin_cerco_spec(texto@).len() == 0 && e@
                == "el modelo devolvió una síntesis vacía"@,
        },
{
    let t = sin_cerco(texto);
    if t.as_str().unicode_len() == 0 {
        return Err(String::from_str("el modelo devolvió una síntesis vacía"));
    }
    Ok(t)
}

/// El documento limpio; sin markdown (solo blancos) es un error.
pub fn pulir_documento(d: Documento) -> (r: Result<Documento, String>)
    requires
        d.markdown@.len() < i64::MAX,
    ensures
        match r {
            Ok(x) => x.titulo@ == titulo_limpio(d.titulo@, 80) && x.markdown@ == sin_cerco_spec(
                d.markdown@,
            ) && x.markdown@.len() > 0,
            Err(e) => sin_cerco_spec(d.markdown@).len() == 0 && e@
                == "el modelo devolvió un documento vacío"@,
        },
{
    let x = limpiar_documento(d);
    if x.markdown.as_str().unicode_len() == 0 {
        return Err(String::from_str("el modelo devolvió un documento vacío"));
    }
    Ok(x)
}

/// El resumen con el título sin adornos (80 caracteres como mucho) y el
/// ejecutivo sin cerco; un ejecutivo vacío es un error.
pub fn pulir_resumen(r: Resumen) -> (res: Result<Resumen, String>)
    requires
        r.ejecutivo@.len() < i64::MAX,
    ensures
        match res {
            Ok(x) => x.titulo@ == titulo_limpio(r.titulo@, 80) && x.ejecutivo@ == sin_cerco_spec(
                r.ejecutivo@,
            ) && x.ejecutivo@.len() > 0 && x.amplio == r.amplio,
            Err(e) => sin_cerco_spec(r.ejecutivo@).len() == 0 && e@
                == "el modelo devolvió un resumen vacío"@,
        },
{
    let titulo = titulo_recortado(r.titulo.as_str(), 80);
    let ejecutivo = sin_cerco(r.ejecutivo.as_str());
    if ejecutivo.as_str().unicode_len() == 0 {
        return Err(String::from_str("el modelo devolvió un resumen vacío"));
    }
    Ok(Resumen { titulo, ejecutivo, amplio: r.amplio })
}

} // verus!

verus! {

// ---------------------------------------------------------------------------
// El audio que se envía y la configuración del servicio.
// ---------------------------------------------------------------------------

/// La cifra Base64 de valor `n` (de 0 a 63) en el alfabeto estándar.
pub open spec fn cifra_base64(n: int) -> char {
    if n < 26 {
        (65 + n) as char
    } else if n < 52 {
        (97 + n - 26) as char
    } else if n < 62 {
        (48 + n - 52) as char
    } else if n == 62 {
        '+'
    } else {
        '/'
    }
}

/// El texto Base64 (alfabeto estándar, con relleno `=`) de unos bytes: cada
/// tres bytes dan cuatro cifras de seis bits; un grupo final de uno o dos
/// bytes se completa con ceros y `=`.
pub open spec fn base64_estandar(d: Seq<u8>) -> Seq<char>
    decreases d.len(),
{
    if d.len() == 0 {
        seq![]
    } else if d.len() == 1 {
        let a = d[0] as int;
        seq![cifra_base64(a / 4), cifra_base64((a % 4) * 16), '=', '=']
    } else if d.len() == 2 {
        let a = d[0] as int;
        let b = d[1] as int;
        seq![cifra_base64(a / 4), cifra_base64((a % 4) * 16 + b / 16), cifra_base64((b % 16) * 4), '=']
    } else {
        let a = d[0] as int;
        let b = d[1] as int;
        let c = d[2] as int;
        seq![
            cifra_base64(a / 4),
            cifra_base64((a % 4) * 16 + b / 16),
            cifra_base64((b % 16) * 4 + c / 64),
            cifra_base64(c % 64),
        ] + base64_estandar(d.skip(3))
    }
}

/// `base64::engine::general_purpose::STANDARD.encode`: el Base64 estándar con
/// relleno de `datos`, tal como lo describe `base64_estandar`. No se llama con tamaños cuya longitud codificada no cabría en
/// `usize`, donde la función entra en pánico.
#[verifier::external_body]
fn codificar_base64(datos: &[u8]) -> (r: String)
    requires
        datos@.len() / 3 * 4 + 4 <= usize::MAX,
    ensures
        r@ == base64_estandar(datos@),
{
    base64::engine::general_purpose::STANDARD.encode(datos)
}

/// Un trozo de audio listo para enviar: vacío es un error; si no, su Base64.
pub fn preparar_audio(mp3: &[u8]) -> (r: Result<String, String>)
    requires
        mp3@.len() / 3 * 4 + 4 <= usize::MAX,
    ensures
        match r {
            Ok(b) => mp3@.len() > 0 && b@ == base64_estandar(mp3@),
            Err(e) => mp3@.len() == 0 && e@ == "trozo de audio vacío"@,
        },
{
    if mp3.len() == 0 {
        return Err(String::from_str("trozo de audio vacío"));
    }
    Ok(codificar_base64(mp3))
}

/// Lo que dice el entorno del servicio de modelos, ya normalizado.
pub struct ConfigLlm {
    pub base: String,
    pub clave: String,
    pub modelo: Option<String>,
    pub modelo_documento: Option<String>,
    pub modelo_audio: String,
}

/// El servicio al que se llama si no se fija otro.
pub const BASE_DEFECTO: &'static str = "https://openrouter-npiobject-labs.fly.dev/v1";

/// El modelo con entrada de audio si no se fija otro.
pub const MODELO_AUDIO: &'static str = "google/gemini-2.5-flash";

/// Una variable sin blancos en los bordes, o nada si queda vacía.
pub open spec fn opcion_limpia(v: Option<Seq<char>>) -> Option<Seq<char>> {
    match v {
        Some(x) => if recortar(x).len() > 0 {
            Some(recortar(x))
        } else {
            None
        },
        None => None,
    }
}

pub open spec fn opcion_string(v: Option<String>) -> Option<Seq<char>> {
    match v {
        Some(x) => Some(x@),
        None => None,
    }
}

pub open spec fn opcion_str(v: Option<&str>) -> Option<Seq<char>> {
    match v {
        Some(x) => Some(x@),
        None => None,
    }
}

/// La base del servicio: sin blancos ni barras al final; la de siempre si no hay.
pub open spec fn base_spec(v: Option<Seq<char>>) -> Seq<char> {
    match v {
        Some(x) => if sin_fin(recortar(x), Clase::Barra).len() > 0 {
            sin_fin(recortar(x), Clase::Barra)
        } else {
            BASE_DEFECTO@
        },
        None => BASE_DEFECTO@,
    }
}

fn limpia(v: Option<&str>) -> (r: Option<String>)
    ensures
        opcion_string(r) == opcion_limpia(opcion_str(v)),
{
    match v {
        Some(x) => {
            let t = recortado(x);
            if t.as_str().unicode_len() > 0 {
                Some(t)
            } else {
                None
            }
        },
        None => None,
    }
}

/// La configuración del servicio a partir de las variables del entorno
/// (`LLM_API_KEY`, `LLM_BASE`, `LLM_MODELO`, `LLM_MODELO_DOCUMENTO`,
/// `LLM_MODELO_AUDIO`). Sin clave no hay IA, y es un modo legítimo: `None`.
/// El modelo de documentos, si no se fija, es el de titular.
pub fn configuracion(
    clave: Option<&str>,
    base: Option<&str>,
    modelo: Option<&str>,
    modelo_documento: Option<&str>,
    modelo_audio: Option<&str>,
) -> (r: Option<ConfigLlm>)
    ensures
        r is None <==> opcion_limpia(opcion_str(clave)) is None,
        r matches Some(c) ==> {
            &&& Some(c.clave@) == opcion_limpia(opcion_str(clave))
            &&& c.base@ == base_spec(opcion_str(base))
            &&& opcion_string(c.modelo) == opcion_limpia(opcion_str(modelo))
            &&& opcion_string(c.modelo_documento) == (if opcion_limpia(opcion_str(modelo_documento)) is Some {
                opcion_limpia(opcion_str(modelo_documento))
            } else {
                opcion_limpia(opcion_str(modelo))
            })
            &&& c.modelo_audio@ == (match opcion_limpia(opcion_str(modelo_audio)) {
                Some(m) => m,
                None => MODELO_AUDIO@,
            })
        },
{
    let clave = match limpia(clave) {
        Some(c) => c,
        None => return None,
    };
    let base = match base {
        Some(b) => {
            let v = caracteres(b);
            let (x, y) = bordes(&v, 0, v.len(), Clase::Blanco);
            assert(v@.subrange(0, v@.len() as int) == v@);
            let z = saltar_fin(&v, x, y, Clase::Barra);
            if z > x {
                texto_de(&v, x, z)
            } else {
                String::from_str(BASE_DEFECTO)
            }
        },
        None => String::from_str(BASE_DEFECTO),
    };
    let modelo = limpia(modelo);
    let modelo_documento = match limpia(modelo_documento) {
        Some(m) => Some(m),
        None => match &modelo {
            Some(m) => Some(m.clone()),
            None => None,
        },
    };
    let modelo_audio = match limpia(modelo_audio) {
        Some(m) => m,
        None => String::from_str(MODELO_AUDIO),
    };
    Some(ConfigLlm { base, clave, modelo, modelo_documento, modelo_audio })
}

} // verus!

verus! {

// ---------------------------------------------------------------------------
// La respuesta del servicio.
// ---------------------------------------------------------------------------

/// Lo que se lee de una respuesta del servicio: si fue un éxito, el estado
/// HTTP escrito, el código y el mensaje del sobre de error, por qué terminó
/// el modelo, el texto que devolvió y qué modelo la sirvió.
pub struct RespuestaServicio {
    pub exito: bool,
    pub estado: String,
    pub codigo: Option<String>,
    pub mensaje: Option<String>,
    pub fin: Option<String>,
    pub contenido: Option<String>,
    pub modelo: Option<String>,
}

pub open spec fn o_bien(o: Option<String>, defecto: Seq<char>) -> Seq<char> {
    match o {
        Some(x) => x@,
        None => defecto,
    }
}

/// El texto de la respuesta y el modelo que la sirvió; un fallo del servicio
/// se cuenta con su código, y una respuesta cortada por longitud no se lee.
pub open spec fn respuesta_spec(r: RespuestaServicio) -> Result<(Seq<char>, Option<Seq<char>>), Seq<char>> {
    if !r.exito {
        Err(
            "el servicio respondió "@ + r.estado@ + " ("@ + o_bien(r.codigo, "desconocido"@) + "): "@
                + o_bien(r.mensaje, "sin detalle"@),
        )
    } else if opcion_string(r.fin) == Some("length"@) {
        Err("el modelo cortó la respuesta por longitud"@)
    } else {
        match r.contenido {
            Some(t) => Ok((t@, opcion_string(r.modelo))),
            None => Err("la respuesta no trae contenido"@),
        }
    }
}

pub open spec fn vista_respuesta(r: Result<(String, Option<String>), String>) -> Result<
    (Seq<char>, Option<Seq<char>>),
    Seq<char>,
> {
    match r {
        Ok((t, m)) => Ok((t@, opcion_string(m))),
        Err(e) => Err(e@),
    }
}

fn o_bien_de(o: &Option<String>, defecto: &str) -> (r: String)
    ensures
        r@ == o_bien(*o, defecto@),
{
    match o {
        Some(x) => String::from_str(x.as_str()),
        None => String::from_str(defecto),
    }
}

/// El texto que devolvió el modelo, o por qué no lo hay.
pub fn leer_respuesta(r: &RespuestaServicio) -> (res: Result<(String, Option<String>), String>)
    ensures
        vista_respuesta(res) == respuesta_spec(*r),
{
    if !r.exito {
        let mut e = String::from_str("el servicio respondió ");
        anadir_str(&mut e, r.estado.as_str());
        anadir_str(&mut e, " (");
        let c = o_bien_de(&r.codigo, "desconocido");
        anadir_str(&mut e, c.as_str());
        anadir_str(&mut e, "): ");
        let m = o_bien_de(&r.mensaje, "sin detalle");
        anadir_str(&mut e, m.as_str());
        return Err(e);
    }
    let cortada = match &r.fin {
        Some(f) => crate::texto::mismo_texto(f.as_str(), "length"),
        None => false,
    };
    if cortada {
        return Err(String::from_str("el modelo cortó la respuesta por longitud"));
    }
    match &r.contenido {
        Some(t) => Ok(
            (
                String::from_str(t.as_str()),
                match &r.modelo {
                    Some(m) => Some(String::from_str(m.as_str())),
                    None => None,
                },
            ),
        ),
        None => Err(String::from_str("la respuesta no trae contenido")),
    }
}

/// El fallo de una consulta al servicio, con su estado y su mensaje.
pub fn fallo_consulta(estado: &str, mensaje: Option<&str>) -> (r: String)
    ensures
        r@ == "el servicio respondió "@ + estado@ + ": "@ + match opcion_str(mensaje) {
            Some(m) => m,
            None => "sin detalle"@,
        },
{
    let mut e = String::from_str("el servicio respondió ");
    anadir_str(&mut e, estado);
    anadir_str(&mut e, ": ");
    match mensaje {
        Some(m) => anadir_str(&mut e, m),
        None => anadir_str(&mut e, "sin detalle"),
    }
    e
}

} // verus!
