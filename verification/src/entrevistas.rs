//! Entrevistas: las marcas de tiempo de la transcripción, el formato del
//! audio subido, el rango pedido por el reproductor, el resumen amplio en
//! markdown y las reglas que deciden qué se puede hacer con cada entrevista.

use vstd::prelude::*;
use crate::llm::{Amplio, Tarea};
use crate::notas::{rechazar, rechazo, ProyectoRef, Rechazo};
use vstd::string::StringSliceAdditionalSpecFns;
use crate::texto::{
    a_minusculas, copia, buscar_ultima, dado, dado_hasta, mismo_texto, primeros, primeros_de, recortado_hasta, contiene, empieza_por, anadir, recortado, sin_bordes,
    vistas_str, hasta, iguales, lema_ultima_posicion, minusculas,
    ultima_posicion, anadir_decimal, anadir_dos_cifras, anadir_str, bordes, buscar, caracteres, decimal,
    dos_cifras, empujar, leer_u64, leer_u64_de, lineas, lineas_de, lineas_y_resto, posicion,
    recortar, lema_posicion, saltar_fin, saltar_inicio, sin_fin, sin_inicio, texto_de, trozos, trozos_de, unir,
    unir_de, vistas, Clase,
};

verus! {

// ---------------------------------------------------------------------------
// Marcas de tiempo.
// ---------------------------------------------------------------------------

/// Formato de tiempo de la transcripción: `mm:ss`, o `h:mm:ss` pasada la hora.
pub open spec fn reloj_spec(s: nat) -> Seq<char> {
    if s >= 3600 {
        decimal(s / 3600) + seq![':'] + dos_cifras((s % 3600) / 60) + seq![':'] + dos_cifras(
            s % 60,
        )
    } else {
        dos_cifras(s / 60) + seq![':'] + dos_cifras(s % 60)
    }
}

/// Añade `reloj_spec(s)` al final de `r`.
fn anadir_reloj(r: &mut String, s: u64)
    ensures
        final(r)@ == old(r)@ + reloj_spec(s as nat),
{
    if s >= 3600 {
        anadir_decimal(r, s / 3600);
        empujar(r, ':');
        anadir_dos_cifras(r, (s % 3600) / 60);
        empujar(r, ':');
        anadir_dos_cifras(r, s % 60);
    } else {
        anadir_dos_cifras(r, s / 60);
        empujar(r, ':');
        anadir_dos_cifras(r, s % 60);
    }
    assert(final(r)@ =~= old(r)@ + reloj_spec(s as nat));
}

/// `s` segundos en el formato de la transcripción.
pub fn reloj(s: u64) -> (r: String)
    ensures
        r@ == reloj_spec(s as nat),
{
    let mut r = String::new();
    anadir_reloj(&mut r, s);
    assert(r@ =~= reloj_spec(s as nat));
    r
}

/// Segundos que dicen los trozos de una marca, `[m, s]` o `[h, m, s]`, cada
/// uno leído sin sus blancos.
pub open spec fn valor_marca(ps: Seq<Seq<char>>) -> Option<int> {
    if ps.len() == 2 {
        match (leer_u64(recortar(ps[0])), leer_u64(recortar(ps[1]))) {
            (Some(m), Some(s)) => Some(m * 60 + s),
            _ => None,
        }
    } else if ps.len() == 3 {
        match (leer_u64(recortar(ps[0])), leer_u64(recortar(ps[1])), leer_u64(recortar(ps[2]))) {
            (Some(h), Some(m), Some(s)) => Some(h * 3600 + m * 60 + s),
            _ => None,
        }
    } else {
        None
    }
}

/// `[mm:ss]` o `[h:mm:ss]` al principio de una línea (tras los blancos): los
/// segundos y lo que sigue al `]`. Una marca que no cabe en `u64` no cuenta
/// como marca.
pub open spec fn marca(l: Seq<char>) -> Option<(int, Seq<char>)> {
    let t = sin_inicio(l, Clase::Blanco);
    if t.len() > 0 && t[0] == '[' {
        let resto = t.drop_first();
        let p = posicion(resto, ']');
        if p >= 0 {
            match valor_marca(trozos(resto.take(p), ':')) {
                Some(v) => if v <= u64::MAX {
                    Some((v, resto.skip(p + 1)))
                } else {
                    None
                },
                None => None,
            }
        } else {
            None
        }
    } else {
        None
    }
}

fn leer_trozo(t: &Vec<char>) -> (r: Option<u64>)
    ensures
        r == leer_u64(recortar(t@)),
{
    let (a, b) = bordes(t, 0, t.len(), Clase::Blanco);
    assert(t@.subrange(0, t@.len() as int) == t@);
    leer_u64_de(t, a, b)
}

/// La marca de `v` y el índice de `v` donde empieza lo que la sigue.
fn marca_de(v: &Vec<char>) -> (r: Option<(u64, usize)>)
    requires
        v.len() < i64::MAX,
    ensures
        match r {
            Some((s, k)) => k <= v.len() && marca(v@) == Some((s as int, v@.skip(k as int))),
            None => marca(v@) is None,
        },
{
    let n = v.len();
    let i = saltar_inicio(v, 0, n, Clase::Blanco);
    assert(v@.subrange(0, n as int) == v@);
    let ghost t = sin_inicio(v@, Clase::Blanco);
    if i >= n || v[i] != '[' {
        return None;
    }
    let ghost resto = t.drop_first();
    assert(resto =~= v@.subrange(i + 1, n as int));
    let p = buscar(v, i + 1, n, ']');
    if p < 0 {
        return None;
    }
    proof {
        lema_posicion(resto, ']');
    }
    let p = p as usize;
    let ps = trozos_de(v, i + 1, i + 1 + p, ':');
    assert(v@.subrange(i + 1, i + 1 + p) =~= resto.take(p as int));
    let ghost vps = vistas(ps@);
    let valor: Option<u128> = if ps.len() == 2 {
        assert(vps[0] == ps@[0]@ && vps[1] == ps@[1]@);
        match (leer_trozo(&ps[0]), leer_trozo(&ps[1])) {
            (Some(m), Some(s)) => Some(m as u128 * 60 + s as u128),
            _ => None,
        }
    } else if ps.len() == 3 {
        assert(vps[0] == ps@[0]@ && vps[1] == ps@[1]@ && vps[2] == ps@[2]@);
        match (leer_trozo(&ps[0]), leer_trozo(&ps[1]), leer_trozo(&ps[2])) {
            (Some(h), Some(m), Some(s)) => Some(h as u128 * 3600 + m as u128 * 60 + s as u128),
            _ => None,
        }
    } else {
        None
    };
    match valor {
        Some(x) => {
            if x > u64::MAX as u128 {
                None
            } else {
                assert(resto.skip(p + 1) =~= v@.skip(i + 2 + p));
                Some((x as u64, i + 2 + p))
            }
        },
        None => None,
    }
}

/// Lee `[mm:ss]` o `[h:mm:ss]` al principio de una línea: los segundos y lo
/// que sigue al `]`.
pub fn leer_marca(linea: &str) -> (r: Option<(u64, String)>)
    requires
        linea@.len() < i64::MAX,
    ensures
        match r {
            Some((s, tras)) => marca(linea@) == Some((s as int, tras@)),
            None => marca(linea@) is None,
        },
{
    let v = caracteres(linea);
    match marca_de(&v) {
        Some((s, k)) => {
            let tras = texto_de(&v, k, v.len());
            assert(v@.subrange(k as int, v@.len() as int) =~= v@.skip(k as int));
            Some((s, tras))
        },
        None => None,
    }
}

/// Si la línea tiene algo más que blancos.
pub open spec fn con_contenido(l: Seq<char>) -> bool {
    recortar(l).len() > 0
}

/// Una línea con su marca llevada `d` segundos más allá; sin marca (o si el
/// nuevo tiempo no cabe en `u64`), sin los blancos del final.
pub open spec fn linea_desplazada(l: Seq<char>, d: int) -> Seq<char> {
    match marca(l) {
        Some((s, tras)) => if s + d <= u64::MAX {
            seq!['['] + reloj_spec((s + d) as nat) + seq![']'] + tras
        } else {
            sin_fin(l, Clase::Blanco)
        },
        None => sin_fin(l, Clase::Blanco),
    }
}

/// Las líneas con contenido, cada una desplazada `d` segundos.
pub open spec fn desplazadas(ls: Seq<Seq<char>>, d: int) -> Seq<Seq<char>>
    decreases ls.len(),
{
    if ls.len() == 0 {
        seq![]
    } else {
        let r = desplazadas(ls.drop_last(), d);
        if con_contenido(ls.last()) {
            r.push(linea_desplazada(ls.last(), d))
        } else {
            r
        }
    }
}

/// El texto con las marcas llevadas al tiempo de la entrevista.
pub open spec fn desplazar(t: Seq<char>, d: int) -> Seq<char> {
    unir(desplazadas(lineas(t), d), seq!['\n'])
}

fn tiene_contenido(l: &Vec<char>) -> (r: bool)
    ensures
        r == con_contenido(l@),
{
    let (a, b) = bordes(l, 0, l.len(), Clase::Blanco);
    assert(l@.subrange(0, l@.len() as int) == l@);
    a < b
}

fn desplazar_linea(l: &Vec<char>, d: u64) -> (r: Vec<char>)
    requires
        l.len() < i64::MAX,
    ensures
        r@ == linea_desplazada(l@, d as int),
{
    match marca_de(l) {
        Some((s, k)) => {
            if s <= u64::MAX - d {
                let mut t = String::new();
                empujar(&mut t, '[');
                anadir_reloj(&mut t, s + d);
                empujar(&mut t, ']');
                let tras = texto_de(l, k, l.len());
                anadir_str(&mut t, tras.as_str());
                assert(l@.subrange(k as int, l@.len() as int) =~= l@.skip(k as int));
                assert(t@ =~= seq!['['] + reloj_spec((s + d) as nat) + seq![']'] + l@.skip(
                    k as int,
                ));
                return caracteres(t.as_str());
            }
        },
        None => {},
    }
    let j = saltar_fin(l, 0, l.len(), Clase::Blanco);
    assert(l@.subrange(0, l@.len() as int) == l@);
    let mut r: Vec<char> = Vec::new();
    let mut i: usize = 0;
    while i < j
        invariant
            j <= l.len(),
            i <= j,
            r@ == l@.subrange(0, i as int),
        decreases j - i,
    {
        r.push(l[i]);
        assert(l@.subrange(0, i + 1) =~= l@.subrange(0, i as int).push(l@[i as int]));
        i = i + 1;
    }
    r
}

/// El modelo cuenta el tiempo desde el principio de su trozo; aquí se pasa al
/// tiempo de la entrevista. Las líneas en blanco se quitan y las que no
/// llevan marca se quedan como están, sin blancos al final.
pub fn desplazar_tiempos(texto: &str, desplazamiento: u64) -> (r: String)
    requires
        texto@.len() < i64::MAX,
    ensures
        r@ == desplazar(texto@, desplazamiento as int),
{
    let v = caracteres(texto);
    let ls = lineas_de(&v);
    let mut out: Vec<Vec<char>> = Vec::new();
    let mut i: usize = 0;
    proof {
        lema_lineas_acotadas(v@);
        assert forall|k: int| 0 <= k < ls.len() implies (#[trigger] ls@[k])@.len() <= v@.len() by {
            assert(vistas(ls@)[k] == ls@[k]@);
        }
    }
    while i < ls.len()
        invariant
            i <= ls.len(),
            vistas(ls@) == lineas(v@),
            forall|k: int| 0 <= k < ls.len() ==> (#[trigger] ls@[k])@.len() <= v@.len(),
            v@.len() < i64::MAX,
            vistas(out@) == desplazadas(vistas(ls@).take(i as int), desplazamiento as int),
        decreases ls.len() - i,
    {
        assert(vistas(ls@).take(i + 1).drop_last() =~= vistas(ls@).take(i as int));
        assert(vistas(ls@).take(i + 1).last() == ls@[i as int]@);
        assert(vistas(ls@)[i as int] == ls@[i as int]@);
        if tiene_contenido(&ls[i]) {
            let d = desplazar_linea(&ls[i], desplazamiento);
            out.push(d);
            assert(vistas(out@) =~= vistas(out@.drop_last()).push(d@));
        }
        i = i + 1;
    }
    assert(vistas(ls@).take(ls@.len() as int) =~= vistas(ls@));
    proof {
        reveal_strlit("\n");
    }
    assert("\n"@ =~= seq!['\n']);
    unir_de(&out, "\n")
}

/// Las líneas de `s` no son más largas que `s`.
pub proof fn lema_lineas_acotadas(s: Seq<char>)
    ensures
        forall|k: int| 0 <= k < lineas(s).len() ==> (#[trigger] lineas(s)[k]).len() <= s.len(),
{
    lema_lineas_y_resto_acotadas(s);
}

proof fn lema_lineas_y_resto_acotadas(s: Seq<char>)
    ensures
        forall|k: int|
            0 <= k < lineas_y_resto(s).0.len() ==> (#[trigger] lineas_y_resto(s).0[k]).len()
                <= s.len(),
        lineas_y_resto(s).1.len() <= s.len(),
    decreases s.len(),
{
    if s.len() > 0 {
        lema_lineas_y_resto_acotadas(s.drop_last());
    }
}

} // verus!

verus! {

/// Las líneas que tienen algo más que blancos.
pub open spec fn no_vacias(ls: Seq<Seq<char>>) -> Seq<Seq<char>>
    decreases ls.len(),
{
    if ls.len() == 0 {
        seq![]
    } else {
        let r = no_vacias(ls.drop_last());
        if con_contenido(ls.last()) {
            r.push(ls.last())
        } else {
            r
        }
    }
}

/// Las `n` últimas líneas con contenido, unidas por saltos de línea.
pub open spec fn ultimas(t: Seq<char>, n: int) -> Seq<char> {
    let ls = no_vacias(lineas(t));
    unir(ls.skip(if ls.len() > n { ls.len() - n } else { 0 }), seq!['\n'])
}

/// La cola de un trozo ya transcrito, para que el siguiente mantenga los
/// nombres de los hablantes.
pub fn ultimas_lineas(texto: &str, n: usize) -> (r: String)
    ensures
        r@ == ultimas(texto@, n as int),
{
    let v = caracteres(texto);
    let ls = lineas_de(&v);
    let mut llenas: Vec<Vec<char>> = Vec::new();
    let mut i: usize = 0;
    while i < ls.len()
        invariant
            i <= ls.len(),
            vistas(ls@) == lineas(v@),
            vistas(llenas@) == no_vacias(vistas(ls@).take(i as int)),
        decreases ls.len() - i,
    {
        assert(vistas(ls@).take(i + 1).drop_last() =~= vistas(ls@).take(i as int));
        assert(vistas(ls@).take(i + 1).last() == ls@[i as int]@);
        if tiene_contenido(&ls[i]) {
            let l = copia(&ls[i]);
            llenas.push(l);
            assert(vistas(llenas@) =~= vistas(llenas@.drop_last()).push(l@));
        }
        i = i + 1;
    }
    assert(vistas(ls@).take(ls@.len() as int) =~= vistas(ls@));
    let desde = if llenas.len() > n {
        llenas.len() - n
    } else {
        0
    };
    let mut cola: Vec<Vec<char>> = Vec::new();
    let mut k = desde;
    while k < llenas.len()
        invariant
            desde <= k <= llenas.len(),
            vistas(cola@) == vistas(llenas@).subrange(desde as int, k as int),
        decreases llenas.len() - k,
    {
        let l = copia(&llenas[k]);
        let ghost antes = cola@;
        cola.push(l);
        assert(cola@ == antes.push(l));
        assert(vistas(cola@) =~= vistas(antes).push(l@));
        assert(vistas(llenas@)[k as int] == llenas@[k as int]@);
        assert(vistas(llenas@).subrange(desde as int, k + 1) =~= vistas(llenas@).subrange(
            desde as int,
            k as int,
        ).push(vistas(llenas@)[k as int]));
        k = k + 1;
    }
    assert(vistas(llenas@).subrange(desde as int, llenas@.len() as int) =~= vistas(
        llenas@,
    ).skip(desde as int));
    proof {
        reveal_strlit("\n");
    }
    assert("\n"@ =~= seq!['\n']);
    unir_de(&cola, "\n")
}

// ---------------------------------------------------------------------------
// Formato del audio.
// ---------------------------------------------------------------------------

/// Las extensiones que se aceptan al subir.
pub open spec fn conocida(e: Seq<char>) -> bool {
    e == "webm"@ || e == "ogg"@ || e == "oga"@ || e == "opus"@ || e == "m4a"@ || e == "mp4"@
        || e == "mp3"@ || e == "wav"@ || e == "aac"@ || e == "3gp"@ || e == "amr"@ || e
        == "flac"@
}

/// La extensión que corresponde a un tipo MIME de audio.
pub open spec fn extension_de_tipo(t: Seq<char>) -> Option<Seq<char>> {
    if t == "audio/webm"@ || t == "video/webm"@ {
        Some("webm"@)
    } else if t == "audio/ogg"@ || t == "application/ogg"@ {
        Some("ogg"@)
    } else if t == "audio/mp4"@ || t == "audio/x-m4a"@ || t == "audio/m4a"@ || t == "video/mp4"@ {
        Some("m4a"@)
    } else if t == "audio/aac"@ {
        Some("aac"@)
    } else if t == "audio/mpeg"@ || t == "audio/mp3"@ {
        Some("mp3"@)
    } else if t == "audio/wav"@ || t == "audio/x-wav"@ || t == "audio/wave"@ || t
        == "audio/vnd.wave"@ {
        Some("wav"@)
    } else if t == "audio/3gpp"@ || t == "video/3gpp"@ {
        Some("3gp"@)
    } else if t == "audio/amr"@ {
        Some("amr"@)
    } else if t == "audio/flac"@ || t == "audio/x-flac"@ {
        Some("flac"@)
    } else {
        None
    }
}

/// La extensión que dice el nombre del fichero, si es conocida: lo que sigue
/// al último punto, en minúsculas.
pub open spec fn extension_por_nombre(n: Seq<char>) -> Option<Seq<char>> {
    let p = ultima_posicion(n, '.');
    if p >= 0 && conocida(minusculas(n.skip(p + 1))) {
        Some(minusculas(n.skip(p + 1)))
    } else {
        None
    }
}

/// Extensión del fichero subido: la del nombre si es conocida; si no, la que
/// corresponde a su tipo (lo que va antes del primer `;`, sin blancos y en
/// minúsculas).
pub open spec fn extension_spec(nombre: Option<Seq<char>>, tipo: Option<Seq<char>>) -> Option<
    Seq<char>,
> {
    let por_nombre = match nombre {
        Some(n) => extension_por_nombre(n),
        None => None,
    };
    if por_nombre is Some {
        por_nombre
    } else {
        match tipo {
            Some(t) => extension_de_tipo(minusculas(recortar(hasta(t, ';')))),
            None => None,
        }
    }
}

pub open spec fn vista_opcion(o: Option<&str>) -> Option<Seq<char>> {
    match o {
        Some(s) => Some(s@),
        None => None,
    }
}

/// Cuál de las extensiones conocidas es `e`.
fn extension_conocida(e: &str) -> (r: Option<&'static str>)
    ensures
        match r {
            Some(x) => conocida(e@) && x@ == e@,
            None => !conocida(e@),
        },
{
    let v = caracteres(e);
    let n = v.len();
    assert(v@.subrange(0, n as int) == v@);
    if iguales(&v, 0, n, "webm") {
        Some("webm")
    } else if iguales(&v, 0, n, "ogg") {
        Some("ogg")
    } else if iguales(&v, 0, n, "oga") {
        Some("oga")
    } else if iguales(&v, 0, n, "opus") {
        Some("opus")
    } else if iguales(&v, 0, n, "m4a") {
        Some("m4a")
    } else if iguales(&v, 0, n, "mp4") {
        Some("mp4")
    } else if iguales(&v, 0, n, "mp3") {
        Some("mp3")
    } else if iguales(&v, 0, n, "wav") {
        Some("wav")
    } else if iguales(&v, 0, n, "aac") {
        Some("aac")
    } else if iguales(&v, 0, n, "3gp") {
        Some("3gp")
    } else if iguales(&v, 0, n, "amr") {
        Some("amr")
    } else if iguales(&v, 0, n, "flac") {
        Some("flac")
    } else {
        None
    }
}

fn extension_tipo(t: &str) -> (r: Option<&'static str>)
    ensures
        vista_opcion(r) == extension_de_tipo(t@),
{
    let v = caracteres(t);
    let n = v.len();
    assert(v@.subrange(0, n as int) == v@);
    if iguales(&v, 0, n, "audio/webm") || iguales(&v, 0, n, "video/webm") {
        Some("webm")
    } else if iguales(&v, 0, n, "audio/ogg") || iguales(&v, 0, n, "application/ogg") {
        Some("ogg")
    } else if iguales(&v, 0, n, "audio/mp4") || iguales(&v, 0, n, "audio/x-m4a") || iguales(
        &v,
        0,
        n,
        "audio/m4a",
    ) || iguales(&v, 0, n, "video/mp4") {
        Some("m4a")
    } else if iguales(&v, 0, n, "audio/aac") {
        Some("aac")
    } else if iguales(&v, 0, n, "audio/mpeg") || iguales(&v, 0, n, "audio/mp3") {
        Some("mp3")
    } else if iguales(&v, 0, n, "audio/wav") || iguales(&v, 0, n, "audio/x-wav") || iguales(
        &v,
        0,
        n,
        "audio/wave",
    ) || iguales(&v, 0, n, "audio/vnd.wave") {
        Some("wav")
    } else if iguales(&v, 0, n, "audio/3gpp") || iguales(&v, 0, n, "video/3gpp") {
        Some("3gp")
    } else if iguales(&v, 0, n, "audio/amr") {
        Some("amr")
    } else if iguales(&v, 0, n, "audio/flac") || iguales(&v, 0, n, "audio/x-flac") {
        Some("flac")
    } else {
        None
    }
}

/// Extensión del fichero subido: la del nombre si es conocida; si no, la que
/// corresponde a su tipo. Lo demás no es audio que podamos leer.
pub fn extension(nombre: Option<&str>, tipo: Option<&str>) -> (r: Option<&'static str>)
    requires
        nombre matches Some(n) ==> n@.len() < i64::MAX,
        tipo matches Some(t) ==> t@.len() < i64::MAX,
    ensures
        vista_opcion(r) == extension_spec(vista_opcion(nombre), vista_opcion(tipo)),
{
    if let Some(n) = nombre {
        let v = caracteres(n);
        let p = buscar_ultima(&v, 0, v.len(), '.');
        assert(v@.subrange(0, v@.len() as int) == v@);
        if p >= 0 {
            proof {
                lema_ultima_posicion(v@, '.');
            }
            let cola = texto_de(&v, (p + 1) as usize, v.len());
            assert(v@.subrange(p + 1, v@.len() as int) =~= v@.skip(p + 1));
            let e = a_minusculas(cola.as_str());
            if let Some(x) = extension_conocida(e.as_str()) {
                return Some(x);
            }
        }
    }
    match tipo {
        Some(t) => {
            let v = caracteres(t);
            let q = buscar(&v, 0, v.len(), ';');
            assert(v@.subrange(0, v@.len() as int) == v@);
            proof {
                lema_posicion(v@, ';');
            }
            let fin = if q >= 0 {
                q as usize
            } else {
                v.len()
            };
            assert(v@.subrange(0, fin as int) == hasta(v@, ';'));
            let (a, b) = bordes(&v, 0, fin, Clase::Blanco);
            let limpio = texto_de(&v, a, b);
            let m = a_minusculas(limpio.as_str());
            extension_tipo(m.as_str())
        },
        None => None,
    }
}

/// El tipo MIME con que se sirve el audio de cada extensión.
pub open spec fn tipo_spec(e: Seq<char>) -> Seq<char> {
    if e == "webm"@ {
        "audio/webm"@
    } else if e == "ogg"@ || e == "oga"@ || e == "opus"@ {
        "audio/ogg"@
    } else if e == "m4a"@ || e == "mp4"@ {
        "audio/mp4"@
    } else if e == "aac"@ {
        "audio/aac"@
    } else if e == "mp3"@ {
        "audio/mpeg"@
    } else if e == "wav"@ {
        "audio/wav"@
    } else if e == "3gp"@ {
        "audio/3gpp"@
    } else if e == "amr"@ {
        "audio/amr"@
    } else if e == "flac"@ {
        "audio/flac"@
    } else {
        "application/octet-stream"@
    }
}

/// El tipo MIME con que se sirve el audio de la extensión `ext`.
pub fn tipo_de(ext: &str) -> (r: &'static str)
    ensures
        r@ == tipo_spec(ext@),
{
    let v = caracteres(ext);
    let n = v.len();
    assert(v@.subrange(0, n as int) == v@);
    if iguales(&v, 0, n, "webm") {
        "audio/webm"
    } else if iguales(&v, 0, n, "ogg") || iguales(&v, 0, n, "oga") || iguales(&v, 0, n, "opus") {
        "audio/ogg"
    } else if iguales(&v, 0, n, "m4a") || iguales(&v, 0, n, "mp4") {
        "audio/mp4"
    } else if iguales(&v, 0, n, "aac") {
        "audio/aac"
    } else if iguales(&v, 0, n, "mp3") {
        "audio/mpeg"
    } else if iguales(&v, 0, n, "wav") {
        "audio/wav"
    } else if iguales(&v, 0, n, "3gp") {
        "audio/3gpp"
    } else if iguales(&v, 0, n, "amr") {
        "audio/amr"
    } else if iguales(&v, 0, n, "flac") {
        "audio/flac"
    } else {
        "application/octet-stream"
    }
}

} // verus!

verus! {

// ---------------------------------------------------------------------------
// Rango de bytes pedido por el reproductor.
// ---------------------------------------------------------------------------

pub open spec fn restar_sat(a: u64, b: u64) -> u64 {
    if a >= b {
        (a - b) as u64
    } else {
        0
    }
}

/// Un rango es servible si empieza antes del final y no está al revés.
pub open spec fn comprobar_rango(ini: u64, fin: u64, total: u64) -> Option<Result<(u64, u64), ()>> {
    if ini > fin || ini >= total {
        Some(Err(()))
    } else {
        Some(Ok((ini, fin)))
    }
}

/// Los dos extremos de `a-b`, ya sin blancos: `-n` son los `n` últimos
/// bytes, `a-` hasta el final y `a-b` con `b` recortado al último byte.
pub open spec fn rango_partes(a: Seq<char>, b: Seq<char>, total: u64) -> Option<
    Result<(u64, u64), ()>,
> {
    if a.len() == 0 {
        match leer_u64(b) {
            None => None,
            Some(n) => if n == 0 || total == 0 {
                Some(Err(()))
            } else {
                comprobar_rango(restar_sat(total, n), (total - 1) as u64, total)
            },
        }
    } else if b.len() == 0 {
        match leer_u64(a) {
            None => None,
            Some(i) => comprobar_rango(i, restar_sat(total, 1), total),
        }
    } else {
        match (leer_u64(a), leer_u64(b)) {
            (Some(i), Some(f)) => comprobar_rango(
                i,
                if f < restar_sat(total, 1) {
                    f
                } else {
                    restar_sat(total, 1)
                },
                total,
            ),
            _ => None,
        }
    }
}

/// El rango de `Range: bytes=a-b` (uno solo): `None` si no hay cabecera o no
/// se entiende, `Some(Err(()))` si no se puede servir.
pub open spec fn rango_spec(valor: Option<Seq<char>>, total: u64) -> Option<Result<(u64, u64), ()>> {
    match valor {
        None => None,
        Some(v) => if v.len() >= 6 && v.take(6) == "bytes="@ {
            let e = recortar(v.skip(6));
            if e.contains(',') {
                None
            } else {
                let p = posicion(e, '-');
                if p < 0 {
                    None
                } else {
                    rango_partes(recortar(e.take(p)), recortar(e.skip(p + 1)), total)
                }
            }
        } else {
            None
        },
    }
}

fn comprobar_rango_exec(ini: u64, fin: u64, total: u64) -> (r: Option<Result<(u64, u64), ()>>)
    ensures
        r == comprobar_rango(ini, fin, total),
{
    if ini > fin || ini >= total {
        Some(Err(()))
    } else {
        Some(Ok((ini, fin)))
    }
}

/// Rango pedido en `Range: bytes=a-b` (uno solo; los múltiples no los usa
/// ningún reproductor). `valor` es el de la cabecera; `None` si no hay
/// cabecera o no se entiende.
pub fn rango(valor: Option<&str>, total: u64) -> (r: Option<Result<(u64, u64), ()>>)
    requires
        valor matches Some(v) ==> v@.len() < i64::MAX,
    ensures
        r == rango_spec(vista_opcion(valor), total),
{
    let valor = match valor {
        Some(v) => v,
        None => return None,
    };
    let v = caracteres(valor);
    let n = v.len();
    assert(v@.subrange(0, n as int) == v@);
    if !empieza_por(&v, 0, n, "bytes=") {
        proof {
            reveal_strlit("bytes=");
        }
        return None;
    }
    proof {
        reveal_strlit("bytes=");
    }
    assert(v@.subrange(6, n as int) =~= v@.skip(6));
    let (x, y) = bordes(&v, 6, n, Clase::Blanco);
    let ghost e = recortar(v@.skip(6));
    if contiene(&v, x, y, ',') {
        return None;
    }
    let p = buscar(&v, x, y, '-');
    if p < 0 {
        return None;
    }
    proof {
        lema_posicion(e, '-');
    }
    let p = p as usize;
    assert(v@.subrange(x as int, x + p) =~= e.take(p as int));
    assert(v@.subrange(x + p + 1, y as int) =~= e.skip(p + 1));
    let (a1, a2) = bordes(&v, x, x + p, Clase::Blanco);
    let (b1, b2) = bordes(&v, x + p + 1, y, Clase::Blanco);
    let ultimo = if total >= 1 {
        total - 1
    } else {
        0
    };
    if a1 == a2 {
        match leer_u64_de(&v, b1, b2) {
            None => None,
            Some(k) => {
                if k == 0 || total == 0 {
                    Some(Err(()))
                } else {
                    let ini = if total >= k {
                        total - k
                    } else {
                        0
                    };
                    comprobar_rango_exec(ini, total - 1, total)
                }
            },
        }
    } else if b1 == b2 {
        match leer_u64_de(&v, a1, a2) {
            None => None,
            Some(i) => comprobar_rango_exec(i, ultimo, total),
        }
    } else {
        match leer_u64_de(&v, a1, a2) {
            None => None,
            Some(i) => match leer_u64_de(&v, b1, b2) {
                None => None,
                Some(f) => comprobar_rango_exec(
                    i,
                    if f < ultimo {
                        f
                    } else {
                        ultimo
                    },
                    total,
                ),
            },
        }
    }
}

} // verus!

verus! {

// ---------------------------------------------------------------------------
// El resumen amplio en markdown.
// ---------------------------------------------------------------------------

/// Cada línea seguida de un salto.
pub open spec fn con_saltos(ls: Seq<Seq<char>>) -> Seq<char>
    decreases ls.len(),
{
    if ls.len() == 0 {
        seq![]
    } else {
        con_saltos(ls.drop_last()) + ls.last() + seq!['\n']
    }
}

/// Una sección con título de segundo nivel; sin material, lo dice en vez de
/// desaparecer.
pub open spec fn seccion(titulo: Seq<char>, ls: Seq<Seq<char>>) -> Seq<char> {
    let llenas = no_vacias(ls);
    "## "@ + titulo + "\n\n"@ + (if llenas.len() == 0 {
        "_Nada en la conversación._\n\n"@
    } else {
        con_saltos(llenas) + "\n"@
    })
}

/// Cada elemento con algo como punto de lista, sin sus blancos; los que son
/// solo blancos no son material y no dan línea.
pub open spec fn puntos(v: Seq<Seq<char>>) -> Seq<Seq<char>>
    decreases v.len(),
{
    if v.len() == 0 {
        seq![]
    } else {
        let r = puntos(v.drop_last());
        if recortar(v.last()).len() > 0 {
            r.push("- "@ + recortar(v.last()))
        } else {
            r
        }
    }
}

pub open spec fn linea_tarea(quien: Seq<char>, que: Seq<char>) -> Seq<char> {
    if recortar(quien).len() == 0 {
        "- "@ + recortar(que)
    } else {
        "- **"@ + recortar(quien) + "**: "@ + recortar(que)
    }
}

/// Las tareas con algo que hacer, con quién las hace si se sabe.
pub open spec fn lineas_tareas(ts: Seq<Tarea>) -> Seq<Seq<char>>
    decreases ts.len(),
{
    if ts.len() == 0 {
        seq![]
    } else {
        let r = lineas_tareas(ts.drop_last());
        if recortar(ts.last().que@).len() > 0 {
            r.push(linea_tarea(ts.last().quien@, ts.last().que@))
        } else {
            r
        }
    }
}

/// El texto de una frase, sin blancos ni las comillas que ya trajera.
pub open spec fn texto_cita(f: Seq<char>) -> Seq<char> {
    sin_bordes(recortar(f), Clase::ComillasCortas)
}

/// Cada frase con algo como cita entre comillas angulares; una frase vacía
/// (o solo de blancos y comillas) no da línea.
pub open spec fn citas(v: Seq<Seq<char>>) -> Seq<Seq<char>>
    decreases v.len(),
{
    if v.len() == 0 {
        seq![]
    } else {
        let r = citas(v.drop_last());
        if texto_cita(v.last()).len() > 0 {
            r.push("> «"@ + texto_cita(v.last()) + "»"@)
        } else {
            r
        }
    }
}

/// El resumen amplio con su estructura fija, sin blancos al final.
pub open spec fn amplio_spec(a: Amplio) -> Seq<char> {
    sin_fin(
        seccion("Participantes"@, puntos(vistas_str(a.participantes@))) + seccion(
            "Temas tratados"@,
            puntos(vistas_str(a.temas@)),
        ) + seccion("Puntos clave"@, puntos(vistas_str(a.puntos_clave@))) + seccion(
            "Acuerdos y decisiones"@,
            puntos(vistas_str(a.acuerdos@)),
        ) + seccion("Tareas pendientes"@, lineas_tareas(a.tareas@)) + seccion(
            "Frases literales relevantes"@,
            citas(vistas_str(a.frases@)),
        ),
        Clase::Blanco,
    )
}

fn anadir_seccion(md: &mut String, titulo: &str, ls: &Vec<Vec<char>>)
    ensures
        final(md)@ == old(md)@ + seccion(titulo@, vistas(ls@)),
{
    let mut llenas: Vec<Vec<char>> = Vec::new();
    let mut i: usize = 0;
    while i < ls.len()
        invariant
            i <= ls.len(),
            vistas(llenas@) == no_vacias(vistas(ls@).take(i as int)),
        decreases ls.len() - i,
    {
        assert(vistas(ls@).take(i + 1).drop_last() =~= vistas(ls@).take(i as int));
        assert(vistas(ls@).take(i + 1).last() == ls@[i as int]@);
        if tiene_contenido(&ls[i]) {
            let l = copia(&ls[i]);
            let ghost antes = llenas@;
            llenas.push(l);
            assert(vistas(llenas@) =~= vistas(antes).push(l@));
        }
        i = i + 1;
    }
    assert(vistas(ls@).take(ls@.len() as int) =~= vistas(ls@));
    anadir_str(md, "## ");
    anadir_str(md, titulo);
    anadir_str(md, "\n\n");
    let ghost cabecera = md@;
    if llenas.len() == 0 {
        anadir_str(md, "_Nada en la conversación._\n\n");
    } else {
        let mut k: usize = 0;
        while k < llenas.len()
            invariant
                k <= llenas.len(),
                md@ == cabecera + con_saltos(vistas(llenas@).take(k as int)),
            decreases llenas.len() - k,
        {
            assert(vistas(llenas@).take(k + 1).drop_last() =~= vistas(llenas@).take(k as int));
            assert(vistas(llenas@).take(k + 1).last() == llenas@[k as int]@);
            anadir(md, &llenas[k]);
            empujar(md, '\n');
            assert(md@ =~= cabecera + con_saltos(vistas(llenas@).take(k + 1)));
            k = k + 1;
        }
        assert(vistas(llenas@).take(llenas@.len() as int) =~= vistas(llenas@));
        anadir_str(md, "\n");
    }
    assert(final(md)@ =~= old(md)@ + seccion(titulo@, vistas(ls@)));
}

fn lineas_puntos(v: &Vec<String>) -> (r: Vec<Vec<char>>)
    ensures
        vistas(r@) == puntos(vistas_str(v@)),
{
    let mut r: Vec<Vec<char>> = Vec::new();
    let mut i: usize = 0;
    while i < v.len()
        invariant
            i <= v.len(),
            vistas(r@) == puntos(vistas_str(v@).take(i as int)),
        decreases v.len() - i,
    {
        assert(vistas_str(v@).take(i + 1) =~= vistas_str(v@).take(i as int).push(v@[i as int]@));
        assert(vistas_str(v@).take(i + 1).drop_last() =~= vistas_str(v@).take(i as int));
        assert(vistas_str(v@).take(i + 1).last() == v@[i as int]@);
        let t = recortado(v[i].as_str());
        if t.as_str().unicode_len() > 0 {
            let mut l = String::new();
            anadir_str(&mut l, "- ");
            anadir_str(&mut l, t.as_str());
            let c = caracteres(l.as_str());
            let ghost antes = r@;
            r.push(c);
            assert(vistas(r@) =~= vistas(antes).push(c@));
        }
        i = i + 1;
    }
    assert(vistas_str(v@).take(v@.len() as int) =~= vistas_str(v@));
    r
}

fn lineas_citas(v: &Vec<String>) -> (r: Vec<Vec<char>>)
    ensures
        vistas(r@) == citas(vistas_str(v@)),
{
    let mut r: Vec<Vec<char>> = Vec::new();
    let mut i: usize = 0;
    while i < v.len()
        invariant
            i <= v.len(),
            vistas(r@) == citas(vistas_str(v@).take(i as int)),
        decreases v.len() - i,
    {
        let w = caracteres(v[i].as_str());
        let (a, b) = bordes(&w, 0, w.len(), Clase::Blanco);
        assert(w@.subrange(0, w@.len() as int) == w@);
        let (c1, c2) = bordes(&w, a, b, Clase::ComillasCortas);
        assert(vistas_str(v@).take(i + 1) =~= vistas_str(v@).take(i as int).push(v@[i as int]@));
        assert(vistas_str(v@).take(i + 1).drop_last() =~= vistas_str(v@).take(i as int));
        assert(vistas_str(v@).take(i + 1).last() == v@[i as int]@);
        if c1 < c2 {
            let mut l = String::new();
            anadir_str(&mut l, "> «");
            let t = texto_de(&w, c1, c2);
            anadir_str(&mut l, t.as_str());
            anadir_str(&mut l, "»");
            let c = caracteres(l.as_str());
            let ghost antes = r@;
            r.push(c);
            assert(vistas(r@) =~= vistas(antes).push(c@));
        }
        i = i + 1;
    }
    assert(vistas_str(v@).take(v@.len() as int) =~= vistas_str(v@));
    r
}

fn lineas_de_tareas(ts: &Vec<Tarea>) -> (r: Vec<Vec<char>>)
    ensures
        vistas(r@) == lineas_tareas(ts@),
{
    let mut r: Vec<Vec<char>> = Vec::new();
    let mut i: usize = 0;
    while i < ts.len()
        invariant
            i <= ts.len(),
            vistas(r@) == lineas_tareas(ts@.take(i as int)),
        decreases ts.len() - i,
    {
        assert(ts@.take(i + 1).drop_last() =~= ts@.take(i as int));
        let que = recortado(ts[i].que.as_str());
        if que.as_str().unicode_len() > 0 {
            let quien = recortado(ts[i].quien.as_str());
            let mut l = String::new();
            if quien.as_str().unicode_len() == 0 {
                anadir_str(&mut l, "- ");
                anadir_str(&mut l, que.as_str());
            } else {
                anadir_str(&mut l, "- **");
                anadir_str(&mut l, quien.as_str());
                anadir_str(&mut l, "**: ");
                anadir_str(&mut l, que.as_str());
            }
            let c = caracteres(l.as_str());
            let ghost antes = r@;
            r.push(c);
            assert(vistas(r@) =~= vistas(antes).push(c@));
        }
        i = i + 1;
    }
    assert(ts@.take(ts@.len() as int) =~= ts@);
    r
}

/// El resumen amplio con la estructura fija: una sección sin material lo
/// dice, en vez de desaparecer, para que se vea que se buscó y no había.
pub fn amplio_en_markdown(a: &Amplio) -> (r: String)
    ensures
        r@ == amplio_spec(*a),
{
    let mut md = String::new();
    anadir_seccion(&mut md, "Participantes", &lineas_puntos(&a.participantes));
    anadir_seccion(&mut md, "Temas tratados", &lineas_puntos(&a.temas));
    anadir_seccion(&mut md, "Puntos clave", &lineas_puntos(&a.puntos_clave));
    anadir_seccion(&mut md, "Acuerdos y decisiones", &lineas_puntos(&a.acuerdos));
    anadir_seccion(&mut md, "Tareas pendientes", &lineas_de_tareas(&a.tareas));
    anadir_seccion(&mut md, "Frases literales relevantes", &lineas_citas(&a.frases));
    let v = caracteres(md.as_str());
    let j = saltar_fin(&v, 0, v.len(), Clase::Blanco);
    assert(v@.subrange(0, v@.len() as int) == v@);
    texto_de(&v, 0, j)
}

} // verus!

verus! {

// ---------------------------------------------------------------------------
// La carpeta del audio.
// ---------------------------------------------------------------------------

/// Un último componente corriente: con algo, sin separadores (`/`, `\\`),
/// sin `:` y que no es `.` ni `..`.
pub open spec fn nombre_simple(f: Seq<char>) -> bool {
    &&& f.len() > 0
    &&& !f.contains('/')
    &&& !f.contains('\\')
    &&& !f.contains(':')
    &&& f != seq!['.']
    &&& f != seq!['.', '.']
}

/// Una carpeta corriente: con algo, sin `\\` ni `:` (nada de prefijos de
/// unidad ni rutas UNC), que no empieza por `//` y que no acaba en `/` ni
/// en `/.`.
pub open spec fn carpeta_simple(d: Seq<char>) -> bool {
    &&& d.len() > 0
    &&& !d.contains('\\')
    &&& !d.contains(':')
    &&& d.last() != '/'
    &&& !(d.len() >= 2 && d[d.len() - 2] == '/' && d.last() == '.')
    &&& !(d.len() >= 2 && d[0] == '/' && d[1] == '/')
}

/// La carpeta de una ruta corriente `d/f`: lo que hay antes de la última
/// `/`, si eso es una carpeta corriente y lo que sigue un nombre corriente.
pub open spec fn carpeta_corriente(ruta: Seq<char>) -> Option<Seq<char>> {
    let k = ultima_posicion(ruta, '/');
    if k >= 0 && carpeta_simple(ruta.take(k)) && nombre_simple(ruta.skip(k + 1)) {
        Some(ruta.take(k))
    } else {
        None
    }
}

/// `Path::parent`: la ruta sin su último componente. Se afirma lo que vale
/// en cualquier plataforma: una ruta vacía no tiene carpeta; la carpeta, si
/// la hay, es un principio de la ruta; y una ruta corriente `d/f` tiene por
/// carpeta `d` (`carpeta_corriente`); un nombre solo, sin carpeta, tiene por
/// carpeta la ruta vacía. Qué otros caracteres cuentan como
/// separador (la `\\` y los prefijos de Windows) lo decide la plataforma, y
/// eso no se dice.
#[verifier::external_body]
fn carpeta_de(ruta: &str) -> (r: Option<String>)
    ensures
        ruta@.len() == 0 ==> r is None,
        r matches Some(p) ==> p@.is_prefix_of(ruta@),
        carpeta_corriente(ruta@) is Some ==> r is Some && r->0@ == carpeta_corriente(ruta@)->0,
        nombre_simple(ruta@) ==> r is Some && r->0@.len() == 0,
{
    std::path::Path::new(ruta).parent().map(|p| p.to_string_lossy().into_owned())
}

/// La carpeta del audio dentro de la carpeta dada: sin carpeta (o vacía), la
/// del directorio actual; el nombre se une con `/` si no lo lleva ya.
pub open spec fn carpeta_audio_spec(padre: Option<Seq<char>>) -> Seq<char> {
    let base = match padre {
        Some(p) => if p.len() > 0 {
            p
        } else {
            seq!['.']
        },
        None => seq!['.'],
    };
    if base.last() == '/' {
        base + "audio"@
    } else {
        base + "/audio"@
    }
}

/// Lo que puede devolver `carpeta_de` para `ruta`.
pub open spec fn carpeta_posible(ruta: Seq<char>, p: Option<Seq<char>>) -> bool {
    &&& ruta.len() == 0 ==> p is None
    &&& p matches Some(q) ==> q.is_prefix_of(ruta)
}

/// La carpeta `audio` junto a la carpeta dada.
pub fn carpeta_audio(padre: Option<&str>) -> (r: String)
    ensures
        r@ == carpeta_audio_spec(crate::llm::opcion_str(padre)),
{
    let mut base = match padre {
        Some(p) => if p.unicode_len() > 0 {
            String::from_str(p)
        } else {
            String::from_str(".")
        },
        None => String::from_str("."),
    };
    proof {
        reveal_strlit(".");
    }
    let v = caracteres(base.as_str());
    if v[v.len() - 1] == '/' {
        anadir_str(&mut base, "audio");
    } else {
        anadir_str(&mut base, "/audio");
    }
    base
}

/// Carpeta del audio: al lado de la base de datos, así en el servidor cae en
/// el mismo volumen.
pub fn dir_audio(ruta_db: &str) -> (r: String)
    ensures
        exists|p: Option<Seq<char>>| #[trigger] carpeta_posible(ruta_db@, p) && r@
            == carpeta_audio_spec(p),
        carpeta_corriente(ruta_db@) matches Some(d) ==> r@ == carpeta_audio_spec(Some(d)),
        nombre_simple(ruta_db@) ==> r@ == "./audio"@,
{
    let padre = carpeta_de(ruta_db);
    let r = match &padre {
        Some(p) => carpeta_audio(Some(p.as_str())),
        None => carpeta_audio(None),
    };
    assert(carpeta_posible(ruta_db@, crate::llm::opcion_string(padre)));
    proof {
        reveal_strlit("./audio");
        reveal_strlit("/audio");
        if nombre_simple(ruta_db@) {
            assert(r@ == seq!['.'] + "/audio"@);
            assert(r@ =~= "./audio"@);
        }
    }
    r
}

// ---------------------------------------------------------------------------
// Una entrevista y lo que llega para crearla o cambiarla.
// ---------------------------------------------------------------------------

/// Una entrevista tal como la ve la app. Los textos largos solo vienen en el
/// detalle y en la exportación.
pub struct Entrevista {
    pub id: String,
    pub titulo: String,
    pub con_quien: String,
    pub creada_en: String,
    pub duracion_s: i64,
    pub audio: bool,
    pub audio_bytes: i64,
    pub audio_tipo: String,
    pub estado: String,
    pub trozos_total: i64,
    pub trozos_hechos: i64,
    pub error: String,
    pub estado_resumen: String,
    pub error_resumen: String,
    pub proyecto: Option<ProyectoRef>,
    pub transcripcion: Option<String>,
    pub resumen_ejecutivo: Option<String>,
    pub resumen: Option<String>,
}

/// Filtro de la lista: proyecto, `solo` sin subcarpetas y `textos=1` para
/// traer transcripción y resúmenes.
pub struct FiltroEntrevistas {
    pub proyecto: Option<String>,
    pub solo: Option<String>,
    pub textos: Option<String>,
}

/// Los campos de texto que acompañan al audio subido.
pub struct CamposEntrevista {
    pub proyecto: Option<String>,
    pub con_quien: String,
    pub duracion_s: i64,
    pub titulo: Option<String>,
}

/// Lo que se cambia de una entrevista: cada campo que venga sustituye al que
/// había.
pub struct EdicionEntrevista {
    pub titulo: Option<String>,
    pub con_quien: Option<String>,
    pub transcripcion: Option<String>,
    pub resumen_ejecutivo: Option<String>,
    pub resumen: Option<String>,
}

/// El proyecto al que se lleva una entrevista.
pub struct Destino {
    pub proyecto: Option<String>,
}

/// Qué resumen se guarda como nota: `ejecutivo`, `amplio` o `ambos`.
pub struct QueGuardar {
    pub cual: Option<String>,
}

pub open spec fn es_uno(o: Option<Seq<char>>) -> bool {
    o == Some(seq!['1'])
}

/// Si la lista tiene que traer los textos largos.
pub fn trae_textos(f: &FiltroEntrevistas) -> (r: bool)
    ensures
        r == es_uno(crate::llm::opcion_string(f.textos)),
{
    proof {
        reveal_strlit("1");
    }
    assert("1"@ =~= seq!['1']);
    match &f.textos {
        Some(t) => mismo_texto(t.as_str(), "1"),
        None => false,
    }
}

/// Lo que se guarda de una entrevista nueva.
pub struct AltaEntrevista {
    pub titulo: Option<String>,
    pub con_quien: String,
    pub duracion_s: i64,
    pub audio_tipo: &'static str,
}

/// Título y con quién, recortados a 120 caracteres; la duración, nunca
/// negativa; el tipo, el que corresponde a la extensión.
pub fn alta_entrevista(c: &CamposEntrevista, ext: &str) -> (r: AltaEntrevista)
    ensures
        match r.titulo {
            Some(t) => dado(crate::llm::opcion_string(c.titulo), 120) == Some(t@),
            None => dado(crate::llm::opcion_string(c.titulo), 120) is None,
        },
        r.con_quien@ == primeros(recortar(c.con_quien@), 120),
        r.duracion_s == (if c.duracion_s < 0 {
            0
        } else {
            c.duracion_s
        }),
        r.audio_tipo@ == tipo_spec(ext@),
{
    let titulo = match &c.titulo {
        Some(t) => dado_hasta(Some(t.as_str()), 120),
        None => dado_hasta(None, 120),
    };
    AltaEntrevista {
        titulo,
        con_quien: recortado_hasta(c.con_quien.as_str(), 120),
        duracion_s: if c.duracion_s < 0 {
            0
        } else {
            c.duracion_s
        },
        audio_tipo: tipo_de(ext),
    }
}

/// El audio que llega tiene que ser de un formato que se sepa leer.
pub fn audio_admitido(nombre: Option<&str>, tipo: Option<&str>) -> (r: Result<&'static str, Rechazo>)
    requires
        nombre matches Some(n) ==> n@.len() < i64::MAX,
        tipo matches Some(t) ==> t@.len() < i64::MAX,
    ensures
        match r {
            Ok(e) => extension_spec(vista_opcion(nombre), vista_opcion(tipo)) == Some(e@),
            Err(x) => extension_spec(vista_opcion(nombre), vista_opcion(tipo)) is None && rechazo(
                x,
                415,
                "formato de audio no admitido (webm, ogg, m4a, mp3, wav, aac, 3gp, amr, flac)"@,
            ),
        },
{
    match extension(nombre, tipo) {
        Some(e) => Ok(e),
        None => Err(
            rechazar(
                415,
                "formato de audio no admitido (webm, ogg, m4a, mp3, wav, aac, 3gp, amr, flac)",
            ),
        ),
    }
}

/// Un audio sin ningún byte no se guarda.
pub fn audio_no_vacio(bytes: u64) -> (r: Result<(), Rechazo>)
    ensures
        match r {
            Ok(()) => bytes > 0,
            Err(x) => bytes == 0 && rechazo(x, 400, "el audio está vacío"@),
        },
{
    if bytes == 0 {
        Err(rechazar(400, "el audio está vacío"))
    } else {
        Ok(())
    }
}

/// Al acabar la subida tiene que haber llegado el audio.
pub fn fin_de_subida(audio: Option<(&'static str, u64)>) -> (r: Result<(&'static str, u64), Rechazo>)
    ensures
        match r {
            Ok(a) => audio == Some(a),
            Err(x) => audio is None && rechazo(x, 400, "falta el campo audio"@),
        },
{
    match audio {
        Some(a) => Ok(a),
        None => Err(rechazar(400, "falta el campo audio")),
    }
}

/// Los cambios que se escriben al editar una entrevista.
pub struct CambiosEntrevista {
    /// El título nuevo, que ya no lo pisa el resumen.
    pub titulo: Option<String>,
    pub con_quien: Option<String>,
    pub transcripcion: Option<String>,
    /// Si la entrevista pasa a `transcrita` (la transcripción nueva tiene algo).
    pub transcrita: bool,
    pub resumen_ejecutivo: Option<String>,
    pub resumen: Option<String>,
}

pub open spec fn recortada(o: Option<String>) -> Option<Seq<char>> {
    match o {
        Some(x) => Some(recortar(x@)),
        None => None,
    }
}

pub open spec fn corta(o: Option<String>, n: int) -> Option<Seq<char>> {
    match o {
        Some(x) => Some(primeros(recortar(x@), n)),
        None => None,
    }
}

/// La transcripción no se toca mientras se está transcribiendo.
pub open spec fn edicion_bloqueada(estado: Seq<char>, c: EdicionEntrevista) -> bool {
    c.transcripcion is Some && estado == "transcribiendo"@
}

fn recortada_de(o: &Option<String>) -> (r: Option<String>)
    ensures
        crate::llm::opcion_string(r) == recortada(*o),
{
    match o {
        Some(x) => Some(recortado(x.as_str())),
        None => None,
    }
}

/// Cada campo que venga sustituye al que había: el título (si queda algo) y
/// con quién, recortados a 120 caracteres; los textos, sin blancos en los
/// bordes. Una transcripción con algo deja la entrevista como transcrita.
pub fn cambios_edicion(estado: &str, c: &EdicionEntrevista) -> (r: Result<CambiosEntrevista, Rechazo>)
    ensures
        match r {
            Ok(k) => {
                &&& !edicion_bloqueada(estado@, *c)
                &&& crate::llm::opcion_string(k.titulo) == dado(crate::llm::opcion_string(c.titulo), 120)
                &&& crate::llm::opcion_string(k.con_quien) == corta(c.con_quien, 120)
                &&& crate::llm::opcion_string(k.transcripcion) == recortada(c.transcripcion)
                &&& k.transcrita == (recortada(c.transcripcion) matches Some(t) && t.len() > 0)
                &&& crate::llm::opcion_string(k.resumen_ejecutivo) == recortada(c.resumen_ejecutivo)
                &&& crate::llm::opcion_string(k.resumen) == recortada(c.resumen)
            },
            Err(x) => edicion_bloqueada(estado@, *c) && rechazo(
                x,
                409,
                "se está transcribiendo; espera a que acabe"@,
            ),
        },
{
    if c.transcripcion.is_some() && mismo_texto(estado, "transcribiendo") {
        return Err(rechazar(409, "se está transcribiendo; espera a que acabe"));
    }
    let titulo = match &c.titulo {
        Some(t) => dado_hasta(Some(t.as_str()), 120),
        None => dado_hasta(None, 120),
    };
    let con_quien = match &c.con_quien {
        Some(q) => Some(recortado_hasta(q.as_str(), 120)),
        None => None,
    };
    let transcripcion = recortada_de(&c.transcripcion);
    let transcrita = match &transcripcion {
        Some(t) => t.as_str().unicode_len() > 0,
        None => false,
    };
    Ok(CambiosEntrevista {
        titulo,
        con_quien,
        transcripcion,
        transcrita,
        resumen_ejecutivo: recortada_de(&c.resumen_ejecutivo),
        resumen: recortada_de(&c.resumen),
    })
}

/// Sin transcripción, borrar el audio sería perder la entrevista.
pub fn puede_borrar_audio(estado: &str) -> (r: Result<(), Rechazo>)
    ensures
        match r {
            Ok(()) => estado@ == "transcrita"@,
            Err(x) => estado@ != "transcrita"@ && rechazo(
                x,
                409,
                "sin transcripción, borrar el audio perdería la entrevista"@,
            ),
        },
{
    if mismo_texto(estado, "transcrita") {
        Ok(())
    } else {
        Err(rechazar(409, "sin transcripción, borrar el audio perdería la entrevista"))
    }
}

} // verus!

verus! {

// ---------------------------------------------------------------------------
// Entrega del audio.
// ---------------------------------------------------------------------------

/// Un rango servible cae entero dentro del fichero.
pub proof fn ley_rango_dentro(valor: Option<Seq<char>>, total: u64)
    ensures
        rango_spec(valor, total) matches Some(Ok((a, b))) ==> a <= b < total,
{
}

/// Cómo se entrega el audio: entero (`200`) o el trozo pedido (`206`), desde
/// qué byte, hasta cuál, cuántos son y la cabecera `Content-Range` si es un
/// trozo.
pub struct Entrega {
    pub parcial: bool,
    pub ini: u64,
    pub fin: u64,
    pub largo: u64,
    pub rango: Option<String>,
}

/// La respuesta para un fichero de `total` bytes y el rango pedido: sin
/// rango, el fichero entero; con uno servible, ese trozo; si no se puede
/// servir, `Err` con el valor de `Content-Range` (`bytes */total`).
pub open spec fn entrega_spec(r: Option<Result<(u64, u64), ()>>, total: u64) -> Result<
    (bool, u64, u64, int, Option<Seq<char>>),
    Seq<char>,
> {
    match r {
        None => Ok((false, 0, restar_sat(total, 1), if total == 0 {
            0
        } else {
            restar_sat(total, 1) + 1
        }, None)),
        Some(Ok((a, b))) => Ok(
            (
                true,
                a,
                b,
                b - a + 1,
                Some(
                    "bytes "@ + decimal(a as nat) + "-"@ + decimal(b as nat) + "/"@ + decimal(
                        total as nat,
                    ),
                ),
            ),
        ),
        Some(Err(())) => Err("bytes */"@ + decimal(total as nat)),
    }
}

pub open spec fn vista_entrega(e: Result<Entrega, String>) -> Result<
    (bool, u64, u64, int, Option<Seq<char>>),
    Seq<char>,
> {
    match e {
        Ok(x) => Ok((x.parcial, x.ini, x.fin, x.largo as int, crate::llm::opcion_string(x.rango))),
        Err(m) => Err(m@),
    }
}

/// Qué se entrega de un audio de `total` bytes con la cabecera `Range` dada.
pub fn entrega_audio(valor: Option<&str>, total: u64) -> (r: Result<Entrega, String>)
    requires
        valor matches Some(v) ==> v@.len() < i64::MAX,
    ensures
        vista_entrega(r) == entrega_spec(rango_spec(vista_opcion(valor), total), total),
{
    let pedido = rango(valor, total);
    proof {
        ley_rango_dentro(vista_opcion(valor), total);
    }
    match pedido {
        None => {
            let fin = if total >= 1 {
                total - 1
            } else {
                0
            };
            let largo = if total == 0 {
                0
            } else {
                fin + 1
            };
            Ok(Entrega { parcial: false, ini: 0, fin, largo, rango: None })
        },
        Some(Ok((a, b))) => {
            let mut c = String::from_str("bytes ");
            anadir_decimal(&mut c, a);
            anadir_str(&mut c, "-");
            anadir_decimal(&mut c, b);
            anadir_str(&mut c, "/");
            anadir_decimal(&mut c, total);
            Ok(Entrega { parcial: true, ini: a, fin: b, largo: b - a + 1, rango: Some(c) })
        },
        Some(Err(())) => {
            let mut c = String::from_str("bytes */");
            anadir_decimal(&mut c, total);
            Err(c)
        },
    }
}

// ---------------------------------------------------------------------------
// Transcripción por trozos.
// ---------------------------------------------------------------------------

/// Cinco minutos por trozo.
pub const SEGUNDOS_POR_TROZO: u64 = 300;

/// Sin servicio de IA no se le puede pedir nada al modelo.
pub fn exigir_ia(hay_ia: bool) -> (r: Result<(), Rechazo>)
    ensures
        match r {
            Ok(()) => hay_ia,
            Err(x) => !hay_ia && rechazo(x, 503, "no hay IA configurada"@),
        },
{
    if hay_ia {
        Ok(())
    } else {
        Err(rechazar(503, "no hay IA configurada"))
    }
}

/// Para transcribir hacen falta la IA y `ffmpeg`, por ese orden.
pub fn servicio_de_transcripcion(hay_ia: bool, hay_ffmpeg: bool) -> (r: Result<(), Rechazo>)
    ensures
        match r {
            Ok(()) => hay_ia && hay_ffmpeg,
            Err(x) => if !hay_ia {
                rechazo(x, 503, "no hay IA configurada"@)
            } else {
                !hay_ffmpeg && rechazo(x, 503, "falta ffmpeg en el servidor"@)
            },
        },
{
    exigir_ia(hay_ia)?;
    if !hay_ffmpeg {
        return Err(rechazar(503, "falta ffmpeg en el servidor"));
    }
    Ok(())
}

/// Si una entrevista se puede transcribir ahora; en ese caso, si se empieza
/// de cero (todo menos seguir una que falló a medias).
pub open spec fn inicio_spec(audio: bool, estado: Seq<char>) -> Result<bool, (u16, Seq<char>)> {
    if !audio {
        Err((409u16, "el audio de esta entrevista se borró"@))
    } else if estado == "transcribiendo"@ {
        Err((409u16, "ya se está transcribiendo"@))
    } else {
        Ok(estado != "fallida"@)
    }
}

pub open spec fn vista_inicio(r: Result<bool, Rechazo>) -> Result<bool, (u16, Seq<char>)> {
    match r {
        Ok(b) => Ok(b),
        Err(x) => Err((x.estado, x.mensaje@)),
    }
}

/// Arranca o, si falló, sigue desde el último trozo hecho; transcribir otra
/// vez algo ya transcrito empieza de cero.
pub fn inicio_transcripcion(audio: bool, estado: &str) -> (r: Result<bool, Rechazo>)
    ensures
        vista_inicio(r) == inicio_spec(audio, estado@),
{
    if !audio {
        return Err(rechazar(409, "el audio de esta entrevista se borró"));
    }
    if mismo_texto(estado, "transcribiendo") {
        return Err(rechazar(409, "ya se está transcribiendo"));
    }
    Ok(!mismo_texto(estado, "fallida"))
}

/// El primer trozo que falta: los ya hechos se saltan, sin pasar del total.
pub open spec fn trozo_inicial_spec(hechos: i64, total: nat) -> int {
    if hechos <= 0 {
        0
    } else if hechos >= total {
        total as int
    } else {
        hechos as int
    }
}

/// Desde qué trozo se sigue; un audio sin trozos no tiene nada que transcribir.
pub fn trozo_inicial(hechos: i64, total: usize) -> (r: Result<usize, String>)
    ensures
        match r {
            Ok(d) => total > 0 && d == trozo_inicial_spec(hechos, total as nat),
            Err(m) => total == 0 && m@ == "el audio no tiene nada que transcribir"@,
        },
{
    if total == 0 {
        return Err(String::from_str("el audio no tiene nada que transcribir"));
    }
    if hechos <= 0 {
        Ok(0)
    } else if hechos as u64 >= total as u64 {
        Ok(total)
    } else {
        Ok(hechos as usize)
    }
}

/// Lo que toca hacer tras pedir un trozo al modelo.
pub enum Paso {
    /// Guardar el texto del trozo, ya con el tiempo de la entrevista.
    Guardar(String),
    /// Esperar esos segundos y volver a pedirlo.
    Esperar(u64),
    /// Dar la transcripción por fallida con ese motivo.
    Fallar(String),
}

/// Esperas entre reintentos de un trozo: tres intentos en total.
pub open spec fn espera_spec(intento: int) -> Option<u64> {
    if intento == 0 {
        Some(5u64)
    } else if intento == 1 {
        Some(15u64)
    } else {
        None
    }
}

/// El trozo `n` (desde cero) de `total`, tras su intento número `intento`
/// (desde cero): si el modelo respondió, su texto se lleva al tiempo de la
/// entrevista; si falló, se espera y se reintenta, o se da por fallido.
pub fn tras_trozo(n: usize, total: usize, intento: usize, resultado: Result<String, String>) -> (r: Paso)
    requires
        n < total,
        n * 300 <= u64::MAX,
        resultado matches Ok(t) ==> t@.len() < i64::MAX,
    ensures
        match resultado {
            Ok(t) => r matches Paso::Guardar(x) && x@ == desplazar(t@, n * 300),
            Err(e) => match espera_spec(intento as int) {
                Some(s) => r == Paso::Esperar(s),
                None => r matches Paso::Fallar(m) && m@ == "trozo "@ + decimal((n + 1) as nat)
                    + " de "@ + decimal(total as nat) + ": "@ + e@,
            },
        },
{
    match resultado {
        Ok(t) => Paso::Guardar(desplazar_tiempos(t.as_str(), n as u64 * SEGUNDOS_POR_TROZO)),
        Err(e) => {
            if intento == 0 {
                Paso::Esperar(5)
            } else if intento == 1 {
                Paso::Esperar(15)
            } else {
                let mut m = String::from_str("trozo ");
                anadir_decimal(&mut m, n as u64 + 1);
                anadir_str(&mut m, " de ");
                anadir_decimal(&mut m, total as u64);
                anadir_str(&mut m, ": ");
                anadir_str(&mut m, e.as_str());
                Paso::Fallar(m)
            }
        },
    }
}

// ---------------------------------------------------------------------------
// Resúmenes.
// ---------------------------------------------------------------------------

/// Para resumir hace falta la transcripción, y no estar ya resumiendo.
pub open spec fn resumible_spec(estado: Seq<char>, transcripcion: Option<Seq<char>>, estado_resumen: Seq<char>) -> Result<
    (),
    (u16, Seq<char>),
> {
    if estado != "transcrita"@ || (match transcripcion {
        Some(t) => recortar(t).len() == 0,
        None => true,
    }) {
        Err((409u16, "primero hay que transcribirla"@))
    } else if estado_resumen == "pendiente"@ {
        Err((409u16, "ya se está resumiendo"@))
    } else {
        Ok(())
    }
}

pub open spec fn vista_nada(r: Result<(), Rechazo>) -> Result<(), (u16, Seq<char>)> {
    match r {
        Ok(()) => Ok(()),
        Err(x) => Err((x.estado, x.mensaje@)),
    }
}

/// Si la entrevista se puede resumir ahora.
pub fn puede_resumir(estado: &str, transcripcion: Option<&str>, estado_resumen: &str) -> (r: Result<(), Rechazo>)
    ensures
        vista_nada(r) == resumible_spec(estado@, vista_opcion(transcripcion), estado_resumen@),
{
    let vacia = match transcripcion {
        Some(t) => recortado(t).as_str().unicode_len() == 0,
        None => true,
    };
    if !mismo_texto(estado, "transcrita") || vacia {
        return Err(rechazar(409, "primero hay que transcribirla"));
    }
    if mismo_texto(estado_resumen, "pendiente") {
        return Err(rechazar(409, "ya se está resumiendo"));
    }
    Ok(())
}

/// La duración en el formato de la transcripción; una negativa cuenta como cero.
pub fn duracion_de(duracion_s: i64) -> (r: String)
    ensures
        r@ == reloj_spec(if duracion_s < 0 {
            0
        } else {
            duracion_s as nat
        }),
{
    if duracion_s < 0 {
        reloj(0)
    } else {
        reloj(duracion_s as u64)
    }
}

/// El título tras resumir: el que propone el modelo, salvo que el usuario
/// haya puesto uno a mano o el modelo no proponga ninguno.
pub fn titulo_tras_resumen(actual: &str, editado: bool, propuesto: &str) -> (r: String)
    ensures
        r@ == (if !editado && propuesto@.len() > 0 {
            propuesto@
        } else {
            actual@
        }),
{
    if !editado && propuesto.unicode_len() > 0 {
        String::from_str(propuesto)
    } else {
        String::from_str(actual)
    }
}

// ---------------------------------------------------------------------------
// Un resumen guardado como nota.
// ---------------------------------------------------------------------------

/// La nota que sale de una entrevista: título, contenido y proyecto.
pub struct NotaDeEntrevista {
    pub titulo: String,
    pub contenido: String,
    pub proyecto: Option<String>,
}

pub open spec fn texto_o_vacio(o: Option<String>) -> Seq<char> {
    match o {
        Some(x) => x@,
        None => seq![],
    }
}

/// El cuerpo que se pide: `ejecutivo` (lo que se toma si no se dice),
/// `amplio` o `ambos`; otro nombre no vale.
pub open spec fn cuerpo_spec(e: Entrevista, cual: Option<Seq<char>>) -> Option<Seq<char>> {
    let c = match cual {
        Some(x) => x,
        None => "ejecutivo"@,
    };
    let ej = texto_o_vacio(e.resumen_ejecutivo);
    let am = texto_o_vacio(e.resumen);
    if c == "ejecutivo"@ {
        Some(ej)
    } else if c == "amplio"@ {
        Some(am)
    } else if c == "ambos"@ {
        Some(ej + "\n\n"@ + am)
    } else {
        None
    }
}

/// La firma de la nota: de qué entrevista sale, cuándo, cuánto duró y con quién.
pub open spec fn pie_spec(e: Entrevista) -> Seq<char> {
    let cq = recortar(e.con_quien@);
    "\n\n_Entrevista «"@ + e.titulo@ + "» · "@ + crate::notas::fecha_minuto(e.creada_en@)
        + " UTC · "@ + reloj_spec(if e.duracion_s < 0 {
        0
    } else {
        e.duracion_s as nat
    }) + (if cq.len() == 0 {
        seq![]
    } else {
        " · con "@ + cq
    }) + "_"@
}

pub open spec fn nota_spec(e: Entrevista, cual: Option<Seq<char>>) -> Result<
    (Seq<char>, Seq<char>, Option<Seq<char>>),
    (u16, Seq<char>),
> {
    match cuerpo_spec(e, cual) {
        None => Err((400u16, "cual: ejecutivo, amplio o ambos"@)),
        Some(c) => if recortar(c).len() == 0 {
            Err((409u16, "la entrevista aún no tiene ese resumen"@))
        } else {
            Ok(
                (
                    primeros(e.titulo@, 60),
                    recortar(c) + pie_spec(e),
                    match e.proyecto {
                        Some(p) => Some(p.id@),
                        None => None,
                    },
                ),
            )
        },
    }
}

pub open spec fn vista_nota(r: Result<NotaDeEntrevista, Rechazo>) -> Result<
    (Seq<char>, Seq<char>, Option<Seq<char>>),
    (u16, Seq<char>),
> {
    match r {
        Ok(n) => Ok((n.titulo@, n.contenido@, crate::llm::opcion_string(n.proyecto))),
        Err(x) => Err((x.estado, x.mensaje@)),
    }
}

fn texto_de_opcion(o: &Option<String>) -> (r: String)
    ensures
        r@ == texto_o_vacio(*o),
{
    match o {
        Some(x) => String::from_str(x.as_str()),
        None => String::new(),
    }
}

/// Uno de los resúmenes (o los dos) como nota nueva en el proyecto de la
/// entrevista, firmada con lo que se sabe de ella.
#[verifier::spinoff_prover]
#[verifier::rlimit(30)]
pub fn nota_de_entrevista(e: &Entrevista, cual: Option<&str>) -> (r: Result<NotaDeEntrevista, Rechazo>)
    ensures
        vista_nota(r) == nota_spec(*e, vista_opcion(cual)),
{
    let c = match cual {
        Some(x) => x,
        None => "ejecutivo",
    };
    let ej = texto_de_opcion(&e.resumen_ejecutivo);
    let am = texto_de_opcion(&e.resumen);
    let cuerpo = if mismo_texto(c, "ejecutivo") {
        ej
    } else if mismo_texto(c, "amplio") {
        am
    } else if mismo_texto(c, "ambos") {
        let mut x = ej;
        anadir_str(&mut x, "\n\n");
        anadir_str(&mut x, am.as_str());
        x
    } else {
        return Err(rechazar(400, "cual: ejecutivo, amplio o ambos"));
    };
    let limpio = recortado(cuerpo.as_str());
    if limpio.as_str().unicode_len() == 0 {
        return Err(rechazar(409, "la entrevista aún no tiene ese resumen"));
    }
    let mut contenido = limpio;
    anadir_str(&mut contenido, "\n\n_Entrevista «");
    anadir_str(&mut contenido, e.titulo.as_str());
    anadir_str(&mut contenido, "» · ");
    let fecha = crate::notas::fecha_al_minuto(e.creada_en.as_str());
    anadir_str(&mut contenido, fecha.as_str());
    anadir_str(&mut contenido, " UTC · ");
    let d = duracion_de(e.duracion_s);
    anadir_str(&mut contenido, d.as_str());
    let cq = recortado(e.con_quien.as_str());
    if cq.as_str().unicode_len() > 0 {
        anadir_str(&mut contenido, " · con ");
        anadir_str(&mut contenido, cq.as_str());
    }
    anadir_str(&mut contenido, "_");
    let proyecto = match &e.proyecto {
        Some(p) => Some(String::from_str(p.id.as_str())),
        None => None,
    };
    let titulo = primeros_de(e.titulo.as_str(), 60);
    let r = NotaDeEntrevista { titulo, contenido, proyecto };
    assert(r.contenido@ =~= recortar(cuerpo@) + pie_spec(*e));
    Ok(r)
}

} // verus!

verus! {

// ---------------------------------------------------------------------------
// La consulta de la lista.
// ---------------------------------------------------------------------------

fn como_str(o: &Option<String>) -> (r: Option<&str>)
    ensures
        crate::llm::opcion_str(r) == crate::llm::opcion_string(*o),
{
    match o {
        Some(x) => Some(x.as_str()),
        None => None,
    }
}

/// Lo que sigue al `SELECT` de la lista de entrevistas: el filtro de
/// proyecto, de la más reciente a la más antigua y hasta 500; y los
/// parámetros que pide.
pub open spec fn condiciones_spec(proyecto: Option<Seq<char>>, solo: bool) -> (Seq<char>, Seq<Seq<char>>) {
    let cola = " ORDER BY e.creada_en DESC LIMIT 500"@;
    match crate::notas::filtro_spec(proyecto) {
        None => (" WHERE 1=1"@ + cola, seq![]),
        Some(None) => (
            " WHERE 1=1"@ + crate::notas::condicion_spec("e.proyecto_id"@, false, solo, 0) + cola,
            seq![],
        ),
        Some(Some(id)) => (
            " WHERE 1=1"@ + crate::notas::condicion_spec("e.proyecto_id"@, true, solo, 1) + cola,
            seq![id],
        ),
    }
}

/// Las condiciones y parámetros de la lista de entrevistas.
pub fn condiciones_entrevistas(f: &FiltroEntrevistas) -> (r: (String, Vec<String>))
    ensures
        (r.0@, vistas_str(r.1@)) == condiciones_spec(
            crate::llm::opcion_string(f.proyecto),
            crate::notas::es_solo_spec(crate::llm::opcion_string(f.solo)),
        ),
{
    let mut sql = String::from_str(" WHERE 1=1");
    let mut args: Vec<String> = Vec::new();
    assert(vistas_str(args@) =~= Seq::<Seq<char>>::empty());
    let solo = crate::notas::es_solo(como_str(&f.solo));
    let p = como_str(&f.proyecto);
    crate::notas::sql_proyecto(&mut sql, &mut args, "e.proyecto_id", p, solo);
    let ghost s1 = sql@;
    anadir_str(&mut sql, " ORDER BY e.creada_en DESC LIMIT 500");
    proof {
        match crate::notas::filtro_spec(crate::llm::opcion_str(p)) {
            Some(Some(id)) => {
                assert(vistas_str(args@) =~= seq![id]);
            },
            _ => {},
        }
    }
    (sql, args)
}

} // verus!
