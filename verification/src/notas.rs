//! Reglas de notas, proyectos y documentos: la clave con que se comparan
//! nombres, la consulta de búsqueda, los filtros por proyecto, los títulos de
//! respaldo y provisionales, la validación de nombres y descripciones y la
//! sección de notas de origen.

use vstd::prelude::*;
use vstd::string::StringSliceAdditionalSpecFns;
use crate::llm::NotaFuente;
use crate::texto::{
    a_mayuscula, a_minusculas, anadir, anadir_decimal, anadir_str, bordes, caracteres, colapsado,
    colapsar, copia, decimal, empujar, fragmentos, fragmentos_de, iguales, mayuscula, minusculas,
    palabras, palabras_de, primeros, recortado, recortar, sin_bordes, texto, texto_de, ultima_posicion,
    buscar_ultima, lema_ultima_posicion, unir, unir_de, unir_strings, vistas, vistas_str, Clase,
};

verus! {

// ---------------------------------------------------------------------------
// Claves de nombres.
// ---------------------------------------------------------------------------

/// Una vocal acentuada pasa a la misma sin acento.
pub open spec fn sin_acento(c: char) -> char {
    if c == 'á' || c == 'à' || c == 'ä' || c == 'â' {
        'a'
    } else if c == 'é' || c == 'è' || c == 'ë' || c == 'ê' {
        'e'
    } else if c == 'í' || c == 'ì' || c == 'ï' || c == 'î' {
        'i'
    } else if c == 'ó' || c == 'ò' || c == 'ö' || c == 'ô' {
        'o'
    } else if c == 'ú' || c == 'ù' || c == 'ü' || c == 'û' {
        'u'
    } else {
        c
    }
}

fn quitar_acento(c: char) -> (r: char)
    ensures
        r == sin_acento(c),
{
    if c == 'á' || c == 'à' || c == 'ä' || c == 'â' {
        'a'
    } else if c == 'é' || c == 'è' || c == 'ë' || c == 'ê' {
        'e'
    } else if c == 'í' || c == 'ì' || c == 'ï' || c == 'î' {
        'i'
    } else if c == 'ó' || c == 'ò' || c == 'ö' || c == 'ô' {
        'o'
    } else if c == 'ú' || c == 'ù' || c == 'ü' || c == 'û' {
        'u'
    } else {
        c
    }
}

/// Nombre comparable: espacios colapsados, en minúsculas y sin acentos.
pub open spec fn clave_spec(s: Seq<char>) -> Seq<char> {
    minusculas(colapsar(s)).map_values(|c: char| sin_acento(c))
}

/// Nombre comparable: minúsculas, sin acentos y con los espacios colapsados.
/// `COLLATE NOCASE` no sirve: solo iguala ASCII.
pub fn clave(s: &str) -> (r: String)
    ensures
        r@ == clave_spec(s@),
{
    let c = colapsado(s);
    let m = a_minusculas(c.as_str());
    let v = caracteres(m.as_str());
    let mut r = String::new();
    let mut i: usize = 0;
    while i < v.len()
        invariant
            i <= v.len(),
            r@ == v@.take(i as int).map_values(|c: char| sin_acento(c)),
        decreases v.len() - i,
    {
        empujar(&mut r, quitar_acento(v[i]));
        assert(v@.take(i + 1).map_values(|c: char| sin_acento(c)) =~= v@.take(i as int).map_values(
            |c: char| sin_acento(c),
        ).push(sin_acento(v@[i as int])));
        i = i + 1;
    }
    assert(v@.take(v@.len() as int) =~= v@);
    r
}

/// La clave guardada: la clave a secas en un proyecto principal y con el id
/// del padre delante en una subcarpeta, así el nombre es único dentro de su padre.
pub open spec fn clave_en_spec(nombre: Seq<char>, padre: Option<Seq<char>>) -> Seq<char> {
    match padre {
        Some(p) => p + seq!['/'] + clave_spec(nombre),
        None => clave_spec(nombre),
    }
}

/// La clave guardada de un nombre dentro de su padre.
pub fn clave_en(nombre: &str, padre: Option<&str>) -> (r: String)
    ensures
        r@ == clave_en_spec(nombre@, crate::llm::opcion_str(padre)),
{
    match padre {
        Some(p) => {
            let mut r = String::new();
            anadir_str(&mut r, p);
            empujar(&mut r, '/');
            let c = clave(nombre);
            anadir_str(&mut r, c.as_str());
            assert(r@ =~= clave_en_spec(nombre@, crate::llm::opcion_str(padre)));
            r
        },
        None => clave(nombre),
    }
}

// ---------------------------------------------------------------------------
// Búsqueda de texto.
// ---------------------------------------------------------------------------

/// Cada comilla doble duplicada.
pub open spec fn escapar(p: Seq<char>) -> Seq<char>
    decreases p.len(),
{
    if p.len() == 0 {
        seq![]
    } else {
        escapar(p.drop_last()) + if p.last() == '"' {
            seq!['"', '"']
        } else {
            seq![p.last()]
        }
    }
}

/// Una palabra como término de búsqueda: entre comillas y con prefijo.
pub open spec fn termino(p: Seq<char>) -> Seq<char> {
    seq!['"'] + escapar(p) + seq!['"', '*']
}

/// Los términos de una búsqueda: cada palabra sin lo que no es letra ni
/// número en sus bordes, las que quedan vacías fuera.
pub open spec fn terminos(ps: Seq<Seq<char>>) -> Seq<Seq<char>>
    decreases ps.len(),
{
    if ps.len() == 0 {
        seq![]
    } else {
        let r = terminos(ps.drop_last());
        let p = sin_bordes(ps.last(), Clase::NoAlfanumerico);
        if p.len() > 0 {
            r.push(termino(p))
        } else {
            r
        }
    }
}

/// Texto libre a consulta FTS5: cada palabra entre comillas (sin sintaxis
/// especial) y con prefijo, unidas por AND implícito; nada si no queda ninguna.
pub open spec fn consulta_fts_spec(q: Seq<char>) -> Option<Seq<char>> {
    let ts = terminos(palabras(q));
    if ts.len() == 0 {
        None
    } else {
        Some(unir(ts, seq![' ']))
    }
}

/// Texto libre a consulta FTS5.
pub fn consulta_fts(q: &str) -> (r: Option<String>)
    ensures
        crate::llm::opcion_string(r) == consulta_fts_spec(q@),
{
    let v = caracteres(q);
    let ps = palabras_de(&v);
    let mut ts: Vec<Vec<char>> = Vec::new();
    let mut i: usize = 0;
    while i < ps.len()
        invariant
            i <= ps.len(),
            vistas(ts@) == terminos(vistas(ps@).take(i as int)),
        decreases ps.len() - i,
    {
        assert(vistas(ps@).take(i + 1).drop_last() =~= vistas(ps@).take(i as int));
        assert(vistas(ps@).take(i + 1).last() == ps@[i as int]@);
        let p = &ps[i];
        let (a, b) = bordes(p, 0, p.len(), Clase::NoAlfanumerico);
        assert(p@.subrange(0, p@.len() as int) == p@);
        if a < b {
            let ghost limpia = p@.subrange(a as int, b as int);
            let mut t: Vec<char> = Vec::new();
            t.push('"');
            let mut k = a;
            while k < b
                invariant
                    a <= k <= b <= p.len(),
                    limpia == p@.subrange(a as int, b as int),
                    t@ == seq!['"'] + escapar(p@.subrange(a as int, k as int)),
                decreases b - k,
            {
                assert(p@.subrange(a as int, k + 1).drop_last() =~= p@.subrange(a as int, k as int));
                if p[k] == '"' {
                    t.push('"');
                    t.push('"');
                } else {
                    t.push(p[k]);
                }
                assert(t@ =~= seq!['"'] + escapar(p@.subrange(a as int, k + 1)));
                k = k + 1;
            }
            t.push('"');
            t.push('*');
            assert(t@ =~= termino(limpia));
            let ghost antes = ts@;
            ts.push(t);
            assert(vistas(ts@) =~= vistas(antes).push(t@));
        }
        i = i + 1;
    }
    assert(vistas(ps@).take(ps@.len() as int) =~= vistas(ps@));
    if ts.len() == 0 {
        None
    } else {
        proof {
            reveal_strlit(" ");
        }
        assert(" "@ =~= seq![' ']);
        Some(unir_de(&ts, " "))
    }
}

// ---------------------------------------------------------------------------
// Filtros por proyecto.
// ---------------------------------------------------------------------------

/// El filtro de proyecto de una lista.
pub enum FiltroProyecto {
    /// Todas, sin filtro.
    Todas,
    /// Solo las que no tienen proyecto (`ninguno`).
    SinProyecto,
    /// Las de un proyecto concreto.
    De(String),
}

pub open spec fn filtro_spec(p: Option<Seq<char>>) -> Option<Option<Seq<char>>> {
    match p {
        None => None,
        Some(x) => {
            let t = recortar(x);
            if t.len() == 0 {
                None
            } else if t == "ninguno"@ {
                Some(None)
            } else {
                Some(Some(t))
            }
        },
    }
}

pub open spec fn vista_filtro(f: FiltroProyecto) -> Option<Option<Seq<char>>> {
    match f {
        FiltroProyecto::Todas => None,
        FiltroProyecto::SinProyecto => Some(None),
        FiltroProyecto::De(id) => Some(Some(id@)),
    }
}

/// Filtro de proyecto en las listas: sin valor (o vacío) no filtra,
/// `ninguno` es «Sin proyecto» y cualquier otro valor es el id de uno.
pub fn filtro_proyecto(p: Option<&str>) -> (r: FiltroProyecto)
    ensures
        vista_filtro(r) == filtro_spec(crate::llm::opcion_str(p)),
{
    match p {
        None => FiltroProyecto::Todas,
        Some(x) => {
            let t = recortado(x);
            let v = caracteres(t.as_str());
            assert(v@.subrange(0, v@.len() as int) == v@);
            if v.len() == 0 {
                FiltroProyecto::Todas
            } else if iguales(&v, 0, v.len(), "ninguno") {
                FiltroProyecto::SinProyecto
            } else {
                FiltroProyecto::De(t)
            }
        },
    }
}

/// `solo=1` (o `true`) en la consulta.
pub open spec fn es_solo_spec(s: Option<Seq<char>>) -> bool {
    s == Some("1"@) || s == Some("true"@)
}

/// `solo=1` (o `true`) en la consulta.
pub fn es_solo(s: Option<&str>) -> (r: bool)
    ensures
        r == es_solo_spec(crate::llm::opcion_str(s)),
{
    match s {
        Some(x) => {
            let v = caracteres(x);
            assert(v@.subrange(0, v@.len() as int) == v@);
            iguales(&v, 0, v.len(), "1") || iguales(&v, 0, v.len(), "true")
        },
        None => false,
    }
}

/// La condición de proyecto que se añade al SQL sobre `columna`, con el
/// número del parámetro nuevo (`n`): un proyecto incluye sus subcarpetas
/// salvo con `solo`.
pub open spec fn condicion_spec(columna: Seq<char>, id_presente: bool, solo: bool, n: nat) -> Seq<char> {
    if !id_presente {
        " AND "@ + columna + " IS NULL"@
    } else if solo {
        " AND "@ + columna + " = ?"@ + decimal(n)
    } else {
        " AND "@ + columna + " IN (SELECT id FROM proyectos WHERE id = ?"@ + decimal(n)
            + " OR padre_id = ?"@ + decimal(n) + ")"@
    }
}

/// Añade al SQL la condición de proyecto sobre la columna dada. Un proyecto
/// incluye sus subcarpetas salvo con `solo`.
pub fn sql_proyecto(
    sql: &mut String,
    args: &mut Vec<String>,
    columna: &str,
    p: Option<&str>,
    solo: bool,
)
    requires
        old(args).len() < u64::MAX,
    ensures
        match filtro_spec(crate::llm::opcion_str(p)) {
            None => final(sql)@ == old(sql)@ && final(args)@ == old(args)@,
            Some(None) => final(sql)@ == old(sql)@ + condicion_spec(columna@, false, solo, 0)
                && final(args)@ == old(args)@,
            Some(Some(id)) => final(sql)@ == old(sql)@ + condicion_spec(
                columna@,
                true,
                solo,
                (old(args)@.len() + 1) as nat,
            ) && vistas_str(final(args)@) == vistas_str(old(args)@).push(id),
        },
{
    match filtro_proyecto(p) {
        FiltroProyecto::Todas => {},
        FiltroProyecto::SinProyecto => {
            anadir_str(sql, " AND ");
            anadir_str(sql, columna);
            anadir_str(sql, " IS NULL");
        },
        FiltroProyecto::De(id) => {
            let ghost vid = id@;
            let ghost antes = args@;
            args.push(id);
            assert(vistas_str(args@) =~= vistas_str(antes).push(vid));
            let n = args.len() as u64;
            anadir_str(sql, " AND ");
            anadir_str(sql, columna);
            if solo {
                anadir_str(sql, " = ?");
                anadir_decimal(sql, n);
            } else {
                anadir_str(sql, " IN (SELECT id FROM proyectos WHERE id = ?");
                anadir_decimal(sql, n);
                anadir_str(sql, " OR padre_id = ?");
                anadir_decimal(sql, n);
                anadir_str(sql, ")");
            }
        },
    }
}

} // verus!

verus! {

// ---------------------------------------------------------------------------
// Respuestas de rechazo.
// ---------------------------------------------------------------------------

/// Una petición rechazada: el estado HTTP y el motivo que se le enseña al usuario.
pub struct Rechazo {
    pub estado: u16,
    pub mensaje: String,
}

pub open spec fn rechazo(r: Rechazo, estado: u16, mensaje: Seq<char>) -> bool {
    r.estado == estado && r.mensaje@ == mensaje
}

pub fn rechazar(estado: u16, mensaje: &str) -> (r: Rechazo)
    ensures
        rechazo(r, estado, mensaje@),
{
    Rechazo { estado, mensaje: String::from_str(mensaje) }
}

// ---------------------------------------------------------------------------
// Nombres, descripciones y títulos.
// ---------------------------------------------------------------------------

/// Nombre de proyecto: obligatorio, espacios colapsados, hasta 60 caracteres.
pub open spec fn nombre_valido_spec(nombre: Seq<char>) -> Result<Seq<char>, Seq<char>> {
    let n = colapsar(nombre);
    if n.len() == 0 {
        Err("el proyecto necesita un nombre"@)
    } else if n.len() > 60 {
        Err("el nombre pasa de 60 caracteres"@)
    } else {
        Ok(n)
    }
}

pub open spec fn vista_resultado(r: Result<String, &str>) -> Result<Seq<char>, Seq<char>> {
    match r {
        Ok(x) => Ok(x@),
        Err(e) => Err(e@),
    }
}

/// Nombre obligatorio, espacios colapsados, hasta 60 caracteres.
pub fn nombre_valido(nombre: &str) -> (r: Result<String, &'static str>)
    ensures
        vista_resultado(r) == nombre_valido_spec(nombre@),
{
    let n = colapsado(nombre);
    let largo = n.as_str().unicode_len();
    if largo == 0 {
        Err("el proyecto necesita un nombre")
    } else if largo > 60 {
        Err("el nombre pasa de 60 caracteres")
    } else {
        Ok(n)
    }
}

/// Descripción: sin blancos en los bordes y hasta 300 caracteres.
pub fn descripcion_valida(d: &str) -> (r: String)
    ensures
        r@ == primeros(recortar(d@), 300),
{
    let t = recortado(d);
    crate::texto::primeros_de(t.as_str(), 300)
}

/// Una nota copiada en un documento: id, título y fecha de creación.
pub struct FuenteDocumento {
    pub id: String,
    pub titulo: String,
    pub creada_en: String,
}

/// Título mientras el modelo no devuelve el suyo: el de la primera nota y
/// cuántas más hay. Nunca se enseña un documento sin nombre.
pub open spec fn titulo_provisional_spec(titulos: Seq<Seq<char>>) -> Seq<char> {
    if titulos.len() == 0 {
        "Documento"@
    } else if titulos.len() == 1 {
        primeros(titulos[0], 80)
    } else if titulos.len() == 2 {
        primeros(titulos[0], 60) + " y una nota mas"@
    } else {
        primeros(titulos[0], 60) + " y "@ + decimal((titulos.len() - 1) as nat) + " notas mas"@
    }
}

pub open spec fn titulos_de(f: Seq<FuenteDocumento>) -> Seq<Seq<char>> {
    f.map_values(|x: FuenteDocumento| x.titulo@)
}

/// Título mientras el modelo no devuelve el suyo.
pub fn titulo_provisional(fuentes: &[FuenteDocumento]) -> (r: String)
    ensures
        r@ == titulo_provisional_spec(titulos_de(fuentes@)),
{
    let n = fuentes.len();
    if n == 0 {
        return String::from_str("Documento");
    }
    assert(titulos_de(fuentes@)[0] == fuentes@[0].titulo@);
    if n == 1 {
        return crate::texto::primeros_de(fuentes[0].titulo.as_str(), 80);
    }
    let mut r = crate::texto::primeros_de(fuentes[0].titulo.as_str(), 60);
    if n == 2 {
        anadir_str(&mut r, " y una nota mas");
    } else {
        anadir_str(&mut r, " y ");
        anadir_decimal(&mut r, (n - 1) as u64);
        anadir_str(&mut r, " notas mas");
    }
    r
}

/// La fecha de una nota recortada al minuto, con espacio en vez de `T`.
pub open spec fn fecha_minuto(f: Seq<char>) -> Seq<char> {
    primeros(f, 16).map_values(|c: char| if c == 'T' { ' ' } else { c })
}

pub fn fecha_al_minuto(f: &str) -> (r: String)
    ensures
        r@ == fecha_minuto(f@),
{
    let p = crate::texto::primeros_de(f, 16);
    let v = caracteres(p.as_str());
    let mut r = String::new();
    let mut i: usize = 0;
    while i < v.len()
        invariant
            i <= v.len(),
            r@ == v@.take(i as int).map_values(|c: char| if c == 'T' { ' ' } else { c }),
        decreases v.len() - i,
    {
        let c = v[i];
        empujar(&mut r, if c == 'T' { ' ' } else { c });
        assert(v@.take(i + 1).map_values(|c: char| if c == 'T' { ' ' } else { c }) =~= v@.take(
            i as int,
        ).map_values(|c: char| if c == 'T' { ' ' } else { c }).push(
            if c == 'T' { ' ' } else { c },
        ));
        i = i + 1;
    }
    assert(v@.take(v@.len() as int) =~= v@);
    r
}

/// La línea de la nota `i` (desde cero) en las notas de origen.
pub open spec fn linea_origen(i: int, n: NotaFuente) -> Seq<char> {
    decimal((i + 1) as nat) + ". **"@ + n.titulo@ + "** · "@ + fecha_minuto(n.creada_en@) + " UTC"@
        + (if n.etiquetas@.len() == 0 {
        "\n"@
    } else {
        " · etiquetas: "@ + unir(vistas_str(n.etiquetas@), ", "@) + "\n"@
    })
}

/// Las líneas de las notas de `ns`, numeradas desde uno.
pub open spec fn lineas_origen(ns: Seq<NotaFuente>) -> Seq<char>
    decreases ns.len(),
{
    if ns.len() == 0 {
        seq![]
    } else {
        lineas_origen(ns.drop_last()) + linea_origen(ns.len() - 1, ns.last())
    }
}

/// Última sección del documento: de dónde sale cada cosa, con la fecha en UTC
/// recortada al minuto.
pub open spec fn notas_de_origen_spec(ns: Seq<NotaFuente>) -> Seq<char> {
    "## Notas de origen\n\n"@ + lineas_origen(ns)
}

/// Última sección del documento: de dónde sale cada cosa.
pub fn notas_de_origen(fuentes: &[NotaFuente]) -> (r: String)
    requires
        fuentes@.len() < u64::MAX,
    ensures
        r@ == notas_de_origen_spec(fuentes@),
{
    let mut t = String::new();
    anadir_str(&mut t, "## Notas de origen\n\n");
    let ghost base = t@;
    let mut i: usize = 0;
    while i < fuentes.len()
        invariant
            i <= fuentes.len() < u64::MAX,
            base == "## Notas de origen\n\n"@,
            t@ == base + lineas_origen(fuentes@.take(i as int)),
        decreases fuentes.len() - i,
    {
        let n = &fuentes[i];
        assert(fuentes@.take(i + 1).drop_last() =~= fuentes@.take(i as int));
        assert(fuentes@.take(i + 1).last() == *n);
        anadir_decimal(&mut t, i as u64 + 1);
        anadir_str(&mut t, ". **");
        anadir_str(&mut t, n.titulo.as_str());
        anadir_str(&mut t, "** · ");
        let f = fecha_al_minuto(n.creada_en.as_str());
        anadir_str(&mut t, f.as_str());
        anadir_str(&mut t, " UTC");
        if n.etiquetas.len() == 0 {
            anadir_str(&mut t, "\n");
        } else {
            anadir_str(&mut t, " · etiquetas: ");
            let j = unir_strings(&n.etiquetas, ", ");
            anadir_str(&mut t, j.as_str());
            anadir_str(&mut t, "\n");
        }
        assert(t@ =~= base + lineas_origen(fuentes@.take(i + 1)));
        i = i + 1;
    }
    assert(fuentes@.take(fuentes@.len() as int) =~= fuentes@);
    t
}

/// Compara dos textos byte a byte sin cortar en la primera diferencia: el
/// tiempo no delata cuánto se acertó del token.
pub fn iguales_en_tiempo_constante(a: &str, b: &str) -> (r: bool)
    ensures
        r == (a.spec_bytes() == b.spec_bytes()),
        r == (a@ == b@),
{
    proof {
        vstd::utf8::encode_utf8_decode_utf8(a@);
        vstd::utf8::encode_utf8_decode_utf8(b@);
    }
    let x = a.as_bytes();
    let y = b.as_bytes();
    if x.len() != y.len() {
        return false;
    }
    let mut acc: u8 = 0;
    let mut i: usize = 0;
    while i < x.len()
        invariant
            x.len() == y.len(),
            i <= x.len(),
            acc == 0 <==> forall|j: int| 0 <= j < i ==> x@[j] == y@[j],
        decreases x.len() - i,
    {
        let xi = x[i];
        let yi = y[i];
        let d = xi ^ yi;
        assert((acc | d) == 0 <==> (acc == 0 && xi == yi)) by (bit_vector)
            requires
                d == xi ^ yi,
        ;
        acc = acc | d;
        i = i + 1;
    }
    assert(acc == 0 ==> x@ =~= y@);
    acc == 0
}

} // verus!

verus! {

/// La primera frase con contenido, sin blancos en los bordes.
pub open spec fn primera_con_texto(fs: Seq<Seq<char>>) -> Option<Seq<char>>
    decreases fs.len(),
{
    if fs.len() == 0 {
        None
    } else {
        let r = primera_con_texto(fs.drop_last());
        if r is Some {
            r
        } else if recortar(fs.last()).len() > 0 {
            Some(recortar(fs.last()))
        } else {
            None
        }
    }
}

/// Una frase de más de 60 caracteres se corta en el último espacio de los 60
/// primeros, o a los 59 si no lo hay, y lleva puntos suspensivos: nunca pasa
/// de 60 caracteres.
pub open spec fn recorte_titulo(p: Seq<char>) -> Seq<char> {
    if p.len() > 60 {
        let t = p.take(60);
        let k = ultima_posicion(t, ' ');
        (if k >= 0 {
            t.take(k)
        } else {
            p.take(59)
        }).push('…')
    } else {
        p
    }
}

/// Con la primera letra en mayúscula; sin nada, «Nota sin título».
pub open spec fn capitalizar(t: Seq<char>) -> Seq<char> {
    if t.len() == 0 {
        "Nota sin título"@
    } else {
        mayuscula(t[0]) + t.drop_first()
    }
}

/// Título de respaldo: la primera frase con contenido (se parte por punto,
/// exclamación, interrogación y salto de línea), cortada a 60 caracteres como
/// mucho y con mayúscula inicial (que solo alarga el título si la letra se
/// escribe en mayúscula con más de un carácter, como `ß`).
pub open spec fn titulo_respaldo_spec(contenido: Seq<char>) -> Seq<char> {
    capitalizar(recorte_titulo(primera_frase(contenido)))
}

/// La primera frase con contenido, sin blancos; vacía si no hay ninguna.
pub open spec fn primera_frase(contenido: Seq<char>) -> Seq<char> {
    match primera_con_texto(fragmentos(contenido, Clase::FinFrase)) {
        Some(p) => p,
        None => seq![],
    }
}

/// Título de respaldo: primera frase, máximo 60 caracteres (salvo la
/// mayúscula inicial de letras como `ß`).
pub fn titulo_respaldo(contenido: &str) -> (r: String)
    requires
        contenido@.len() < i64::MAX,
    ensures
        r@ == titulo_respaldo_spec(contenido@),
        r@.len() > 0,
{
    let v = caracteres(contenido);
    let fs = fragmentos_de(&v, Clase::FinFrase);
    let mut primera: Vec<char> = Vec::new();
    let mut hallada = false;
    let mut i: usize = 0;
    proof {
        crate::texto::lema_fragmentos_acotados(v@, Clase::FinFrase);
        assert forall|k: int| 0 <= k < fs.len() implies (#[trigger] fs@[k])@.len() <= v@.len() by {
            assert(vistas(fs@)[k] == fs@[k]@);
        }
    }
    while i < fs.len()
        invariant
            i <= fs.len(),
            vistas(fs@) == fragmentos(v@, Clase::FinFrase),
            forall|k: int| 0 <= k < fs.len() ==> (#[trigger] fs@[k])@.len() <= v@.len(),
            v@.len() < i64::MAX,
            primera_con_texto(vistas(fs@).take(i as int)) == (if hallada {
                Some(primera@)
            } else {
                None::<Seq<char>>
            }),
            primera@.len() <= v@.len(),
            !hallada ==> primera@.len() == 0,
        decreases fs.len() - i,
    {
        assert(vistas(fs@).take(i + 1).drop_last() =~= vistas(fs@).take(i as int));
        assert(vistas(fs@).take(i + 1).last() == fs@[i as int]@);
        if !hallada {
            let f = &fs[i];
            let (a, b) = bordes(f, 0, f.len(), Clase::Blanco);
            assert(f@.subrange(0, f@.len() as int) == f@);
            if a < b {
                let mut p: Vec<char> = Vec::new();
                let mut k = a;
                while k < b
                    invariant
                        a <= k <= b <= f.len(),
                        p@ == f@.subrange(a as int, k as int),
                    decreases b - k,
                {
                    p.push(f[k]);
                    assert(f@.subrange(a as int, k + 1) =~= f@.subrange(a as int, k as int).push(
                        f@[k as int],
                    ));
                    k = k + 1;
                }
                primera = p;
                hallada = true;
            }
        }
        i = i + 1;
    }
    assert(vistas(fs@).take(fs@.len() as int) =~= vistas(fs@));
    let ghost p0 = match primera_con_texto(fragmentos(v@, Clase::FinFrase)) {
        Some(p) => p,
        None => seq![],
    };
    assert(p0 == primera@);
    let n = primera.len();
    let recortada: Vec<char> = if n > 60 {
        let k = buscar_ultima(&primera, 0, 60, ' ');
        proof {
            lema_ultima_posicion(primera@.take(60), ' ');
        }
        assert(primera@.subrange(0, 60) =~= primera@.take(60));
        let fin = if k >= 0 {
            k as usize
        } else {
            59
        };
        let mut t: Vec<char> = Vec::new();
        let mut j: usize = 0;
        while j < fin
            invariant
                fin <= 60 < primera.len(),
                j <= fin,
                t@ == primera@.take(j as int),
            decreases fin - j,
        {
            t.push(primera[j]);
            assert(primera@.take(j + 1) =~= primera@.take(j as int).push(primera@[j as int]));
            j = j + 1;
        }
        assert(t@ =~= (if k >= 0 {
            primera@.take(60).take(k as int)
        } else {
            primera@.take(59)
        }));
        t.push('…');
        t
    } else {
        primera
    };
    assert(recortada@ == recorte_titulo(p0));
    if recortada.len() == 0 {
        proof {
            reveal_strlit("Nota sin título");
        }
        return String::from_str("Nota sin título");
    }
    let m = a_mayuscula(recortada[0]);
    let mut r = texto(&m);
    let resto = texto_de(&recortada, 1, recortada.len());
    anadir_str(&mut r, resto.as_str());
    assert(recortada@.subrange(1, recortada@.len() as int) =~= recortada@.drop_first());
    assert(r@ =~= capitalizar(recortada@));
    r
}

// ---------------------------------------------------------------------------
// Tipos de documento y listas de ids.
// ---------------------------------------------------------------------------

/// `encargo` o `informe`; sin valor (o vacío), ninguno; cualquier otra cosa
/// es un 400.
pub open spec fn tipo_valido_spec(t: Option<Seq<char>>) -> Result<Option<Seq<char>>, (u16, Seq<char>)> {
    match t {
        None => Ok(None),
        Some(x) => {
            let y = recortar(x);
            if y.len() == 0 {
                Ok(None)
            } else if y == "encargo"@ {
                Ok(Some("encargo"@))
            } else if y == "informe"@ {
                Ok(Some("informe"@))
            } else {
                Err((400u16, "tipo desconocido: "@ + y))
            }
        },
    }
}

pub open spec fn vista_tipo(r: Result<Option<&str>, Rechazo>) -> Result<Option<Seq<char>>, (u16, Seq<char>)> {
    match r {
        Ok(Some(x)) => Ok(Some(x@)),
        Ok(None) => Ok(None),
        Err(e) => Err((e.estado, e.mensaje@)),
    }
}

/// `encargo` o `informe`; cualquier otra cosa es un 400.
pub fn tipo_valido(t: Option<&str>) -> (r: Result<Option<&'static str>, Rechazo>)
    ensures
        vista_tipo(r) == tipo_valido_spec(crate::llm::opcion_str(t)),
{
    match t {
        None => Ok(None),
        Some(x) => {
            let y = recortado(x);
            let v = caracteres(y.as_str());
            assert(v@.subrange(0, v@.len() as int) == v@);
            if v.len() == 0 {
                Ok(None)
            } else if iguales(&v, 0, v.len(), "encargo") {
                Ok(Some("encargo"))
            } else if iguales(&v, 0, v.len(), "informe") {
                Ok(Some("informe"))
            } else {
                let mut m = String::from_str("tipo desconocido: ");
                anadir_str(&mut m, y.as_str());
                Err(Rechazo { estado: 400, mensaje: m })
            }
        },
    }
}

/// Los ids sin blancos, sin vacíos y sin repetir, en el orden en que llegan:
/// repetir una nota en la selección es un dedo en el móvil, no un error.
pub open spec fn unicos(ids: Seq<Seq<char>>) -> Seq<Seq<char>>
    decreases ids.len(),
{
    if ids.len() == 0 {
        seq![]
    } else {
        let r = unicos(ids.drop_last());
        let t = recortar(ids.last());
        if t.len() > 0 && !r.contains(t) {
            r.push(t)
        } else {
            r
        }
    }
}

/// Los ids sin blancos, sin vacíos y sin repetir.
pub fn ids_unicos(ids: &Vec<String>) -> (r: Vec<String>)
    ensures
        vistas_str(r@) == unicos(vistas_str(ids@)),
{
    let mut r: Vec<String> = Vec::new();
    let mut vs: Vec<Vec<char>> = Vec::new();
    let mut i: usize = 0;
    while i < ids.len()
        invariant
            i <= ids.len(),
            vistas_str(r@) == unicos(vistas_str(ids@).take(i as int)),
            vistas(vs@) == vistas_str(r@),
        decreases ids.len() - i,
    {
        assert(vistas_str(ids@).take(i + 1).drop_last() =~= vistas_str(ids@).take(i as int));
        assert(vistas_str(ids@).take(i + 1).last() == ids@[i as int]@);
        let t = recortado(ids[i].as_str());
        let w = caracteres(t.as_str());
        if w.len() > 0 && !crate::llm::esta_en(&vs, &w) {
            let ghost a1 = r@;
            let ghost a2 = vs@;
            r.push(t);
            vs.push(w);
            assert(vistas_str(r@) =~= vistas_str(a1).push(w@));
            assert(vistas(vs@) =~= vistas(a2).push(w@));
        }
        i = i + 1;
    }
    assert(vistas_str(ids@).take(ids@.len() as int) =~= vistas_str(ids@));
    r
}

/// Tope de notas por documento.
pub const MAXIMO_NOTAS_DOCUMENTO: usize = 20;

/// Las notas pedidas para un documento: de 1 a 20 distintas.
pub open spec fn notas_pedidas_spec(ids: Seq<Seq<char>>) -> Result<Seq<Seq<char>>, (u16, Seq<char>)> {
    let u = unicos(ids);
    if u.len() == 0 {
        Err((400u16, "no hay notas seleccionadas"@))
    } else if u.len() > MAXIMO_NOTAS_DOCUMENTO {
        Err((400u16, "demasiadas notas ("@ + decimal(u.len()) + "), el maximo es 20"@))
    } else {
        Ok(u)
    }
}

pub open spec fn vista_lista(r: Result<Vec<String>, Rechazo>) -> Result<Seq<Seq<char>>, (u16, Seq<char>)> {
    match r {
        Ok(v) => Ok(vistas_str(v@)),
        Err(e) => Err((e.estado, e.mensaje@)),
    }
}

/// Las notas pedidas para un documento: de 1 a 20 distintas.
pub fn notas_pedidas(ids: &Vec<String>) -> (r: Result<Vec<String>, Rechazo>)
    ensures
        vista_lista(r) == notas_pedidas_spec(vistas_str(ids@)),
{
    let u = ids_unicos(ids);
    if u.len() == 0 {
        return Err(rechazar(400, "no hay notas seleccionadas"));
    }
    if u.len() > MAXIMO_NOTAS_DOCUMENTO {
        let mut m = String::from_str("demasiadas notas (");
        anadir_decimal(&mut m, u.len() as u64);
        anadir_str(&mut m, "), el maximo es 20");
        return Err(Rechazo { estado: 400, mensaje: m });
    }
    Ok(u)
}

/// Las notas que se mueven de una vez: al menos una, sin repetir.
pub fn notas_a_mover(ids: &Vec<String>) -> (r: Result<Vec<String>, Rechazo>)
    ensures
        vista_lista(r) == (if unicos(vistas_str(ids@)).len() == 0 {
            Err((400u16, "no hay notas que mover"@))
        } else {
            Ok(unicos(vistas_str(ids@)))
        }),
{
    let u = ids_unicos(ids);
    if u.len() == 0 {
        return Err(rechazar(400, "no hay notas que mover"));
    }
    Ok(u)
}

} // verus!

verus! {

// ---------------------------------------------------------------------------
// Lista de proyectos: filtro y orden.
// ---------------------------------------------------------------------------

/// Lo que la lista lee de un proyecto para filtrarlo y ordenarlo.
pub struct ResumenProyecto {
    pub nombre: String,
    pub descripcion: String,
    pub archivado: bool,
    pub creado_en: Option<String>,
    pub ultima_nota: Option<String>,
    pub notas: i64,
}

/// Si `t` aparece seguido dentro de `h`.
pub open spec fn contiene_texto(h: Seq<char>, t: Seq<char>) -> bool {
    exists|i: int| 0 <= i && i + t.len() <= h.len() && #[trigger] h.subrange(i, i + t.len()) == t
}

/// Si `t` aparece seguido dentro de `h`.
pub fn contiene_texto_exec(h: &Vec<char>, t: &Vec<char>) -> (r: bool)
    ensures
        r == contiene_texto(h@, t@),
{
    if t.len() > h.len() {
        return false;
    }
    let mut i: usize = 0;
    while i <= h.len() - t.len()
        invariant
            t.len() <= h.len(),
            i <= h.len() - t.len() + 1,
            forall|j: int| 0 <= j < i ==> #[trigger] h@.subrange(j, j + t@.len()) != t@,
        decreases h.len() - i,
    {
        let mut k: usize = 0;
        while k < t.len() && h[i + k] == t[k]
            invariant
                i + t.len() <= h.len(),
                k <= t.len(),
                forall|m: int| 0 <= m < k ==> h@[i + m] == t@[m],
            decreases t.len() - k,
        {
            k = k + 1;
        }
        if k == t.len() {
            assert(h@.subrange(i as int, i + t@.len()) =~= t@);
            return true;
        }
        assert(h@.subrange(i as int, i + t@.len())[k as int] != t@[k as int]);
        i = i + 1;
    }
    assert forall|j: int| 0 <= j && j + t@.len() <= h@.len() implies #[trigger] h@.subrange(
        j,
        j + t@.len(),
    ) != t@ by {
        assert(j < i);
    }
    false
}

/// Los términos de una búsqueda de proyectos: las palabras de su clave.
pub open spec fn terminos_spec(q: Option<Seq<char>>) -> Seq<Seq<char>> {
    match q {
        Some(x) => palabras(clave_spec(x)),
        None => seq![],
    }
}

/// Los términos de una búsqueda de proyectos.
pub fn terminos_busqueda(q: Option<&str>) -> (r: Vec<Vec<char>>)
    ensures
        vistas(r@) == terminos_spec(crate::llm::opcion_str(q)),
{
    match q {
        Some(x) => {
            let c = clave(x);
            let v = caracteres(c.as_str());
            palabras_de(&v)
        },
        None => Vec::new(),
    }
}

pub open spec fn texto_proyecto(p: ResumenProyecto) -> Seq<char> {
    clave_spec(p.nombre@ + seq![' '] + p.descripcion@)
}

/// Si el proyecto entra en la lista: no archivado (salvo que se pidan) y
/// con todos los términos en la clave de su nombre y descripción.
pub open spec fn entra(p: ResumenProyecto, con_archivados: bool, ts: Seq<Seq<char>>) -> bool {
    (con_archivados || !p.archivado) && forall|j: int|
        0 <= j < ts.len() ==> contiene_texto(texto_proyecto(p), #[trigger] ts[j])
}

/// Los índices de los proyectos que entran, en su orden.
pub open spec fn filtrados(ps: Seq<ResumenProyecto>, con_archivados: bool, ts: Seq<Seq<char>>) -> Seq<int>
    decreases ps.len(),
{
    if ps.len() == 0 {
        seq![]
    } else {
        let r = filtrados(ps.drop_last(), con_archivados, ts);
        if entra(ps.last(), con_archivados, ts) {
            r.push(ps.len() - 1)
        } else {
            r
        }
    }
}

pub open spec fn texto_o_vacio(o: Option<String>) -> Seq<char> {
    match o {
        Some(s) => s@,
        None => seq![],
    }
}

/// Actividad: la nota o entrevista más reciente; sin ellas, la creación.
pub open spec fn actividad(p: ResumenProyecto) -> Seq<char> {
    match p.ultima_nota {
        Some(u) => u@,
        None => texto_o_vacio(p.creado_en),
    }
}

/// El criterio de orden de la lista.
pub enum Orden {
    Nombre,
    Creacion,
    Notas,
    Actividad,
}

pub open spec fn orden_spec(o: Option<Seq<char>>) -> Orden {
    match o {
        Some(x) => if x == "nombre"@ {
            Orden::Nombre
        } else if x == "creacion"@ {
            Orden::Creacion
        } else if x == "notas"@ {
            Orden::Notas
        } else {
            Orden::Actividad
        },
        None => Orden::Actividad,
    }
}

/// La clave de orden de un proyecto: por nombre, la clave de su nombre (de
/// menor a mayor); por creación, la fecha (sin fecha, al final); por notas,
/// cuántas y después la actividad; por actividad, la actividad (estas tres
/// de mayor a menor).
pub open spec fn clave_orden(p: ResumenProyecto, o: Orden) -> (int, Seq<char>) {
    match o {
        Orden::Nombre => (0, clave_spec(p.nombre@)),
        Orden::Creacion => (if p.creado_en is Some {
            1int
        } else {
            0int
        }, texto_o_vacio(p.creado_en)),
        Orden::Notas => (p.notas as int, actividad(p)),
        Orden::Actividad => (0, actividad(p)),
    }
}

pub open spec fn descendente(o: Orden) -> bool {
    !(o is Nombre)
}

/// La lista de proyectos: los índices de los que entran, en el orden pedido
/// y, a igualdad, en el que llegaron.
pub open spec fn lista_proyectos(
    ps: Seq<ResumenProyecto>,
    con_archivados: bool,
    ts: Seq<Seq<char>>,
    o: Orden,
    r: Seq<int>,
) -> bool {
    let f = filtrados(ps, con_archivados, ts);
    let k = f.map_values(|i: int| clave_orden(ps[i], o));
    exists|perm: Seq<int>|
        crate::orden::ordenados(k, descendente(o), perm, f.len() as int) && r.len() == perm.len()
            && forall|j: int| 0 <= j < r.len() ==> #[trigger] r[j] == f[perm[j]]
}

fn texto_o_nada(o: &Option<String>) -> (r: Vec<char>)
    ensures
        r@ == texto_o_vacio(*o),
{
    match o {
        Some(s) => caracteres(s.as_str()),
        None => Vec::new(),
    }
}

fn clave_orden_exec(p: &ResumenProyecto, o: &Orden) -> (r: (i64, Vec<char>))
    ensures
        (r.0 as int, r.1@) == clave_orden(*p, *o),
{
    match o {
        Orden::Nombre => {
            let c = clave(p.nombre.as_str());
            (0, caracteres(c.as_str()))
        },
        Orden::Creacion => (if p.creado_en.is_some() {
            1
        } else {
            0
        }, texto_o_nada(&p.creado_en)),
        Orden::Notas => {
            let a = match &p.ultima_nota {
                Some(u) => caracteres(u.as_str()),
                None => texto_o_nada(&p.creado_en),
            };
            (p.notas, a)
        },
        Orden::Actividad => {
            let a = match &p.ultima_nota {
                Some(u) => caracteres(u.as_str()),
                None => texto_o_nada(&p.creado_en),
            };
            (0, a)
        },
    }
}

/// El criterio pedido (`nombre`, `creacion`, `notas`; cualquier otro o
/// ninguno, actividad).
pub fn orden_de(o: Option<&str>) -> (r: Orden)
    ensures
        r == orden_spec(crate::llm::opcion_str(o)),
{
    match o {
        Some(x) => {
            let v = caracteres(x);
            assert(v@.subrange(0, v@.len() as int) == v@);
            if iguales(&v, 0, v.len(), "nombre") {
                Orden::Nombre
            } else if iguales(&v, 0, v.len(), "creacion") {
                Orden::Creacion
            } else if iguales(&v, 0, v.len(), "notas") {
                Orden::Notas
            } else {
                Orden::Actividad
            }
        },
        None => Orden::Actividad,
    }
}

/// Lista de proyectos: se filtran (archivados solo si se piden; todos los
/// términos en la clave de nombre y descripción) y se ordenan por el
/// criterio pedido, de forma estable.
pub fn ordenar_proyectos(
    ps: &Vec<ResumenProyecto>,
    terminos: &Vec<Vec<char>>,
    orden: Option<&str>,
    archivados: Option<&str>,
) -> (r: Vec<usize>)
    requires
        ps.len() < i64::MAX,
    ensures
        lista_proyectos(
            ps@,
            es_solo_spec(crate::llm::opcion_str(archivados)),
            vistas(terminos@),
            orden_spec(crate::llm::opcion_str(orden)),
            crate::orden::enteros(r@),
        ),
{
    let con_archivados = es_solo(archivados);
    let o = orden_de(orden);
    let ghost ts = vistas(terminos@);
    let mut f: Vec<usize> = Vec::new();
    let mut i: usize = 0;
    while i < ps.len()
        invariant
            i <= ps.len(),
            ts == vistas(terminos@),
            crate::orden::enteros(f@) == filtrados(ps@.take(i as int), con_archivados, ts),
            forall|j: int| 0 <= j < f.len() ==> (f@[j] as int) < i,
        decreases ps.len() - i,
    {
        assert(ps@.take(i + 1).drop_last() =~= ps@.take(i as int));
        assert(ps@.take(i + 1).last() == ps@[i as int]);
        let p = &ps[i];
        let mut ok = con_archivados || !p.archivado;
        if ok {
            let mut t = String::new();
            anadir_str(&mut t, p.nombre.as_str());
            empujar(&mut t, ' ');
            anadir_str(&mut t, p.descripcion.as_str());
            assert(t@ =~= p.nombre@ + seq![' '] + p.descripcion@);
            let c = clave(t.as_str());
            let cv = caracteres(c.as_str());
            assert(cv@ == texto_proyecto(*p));
            let mut j: usize = 0;
            while j < terminos.len() && ok
                invariant
                    j <= terminos.len(),
                    ts == vistas(terminos@),
                    cv@ == texto_proyecto(*p),
                    ok ==> forall|m: int| 0 <= m < j ==> contiene_texto(cv@, #[trigger] ts[m]),
                    !ok ==> !entra(*p, con_archivados, ts),
                decreases terminos.len() - j,
            {
                assert(ts[j as int] == terminos@[j as int]@);
                if !contiene_texto_exec(&cv, &terminos[j]) {
                    ok = false;
                }
                j = j + 1;
            }
        }
        if ok {
            let ghost antes = f@;
            f.push(i);
            assert(crate::orden::enteros(f@) =~= crate::orden::enteros(antes).push(i as int));
        }
        i = i + 1;
    }
    assert(ps@.take(ps@.len() as int) =~= ps@);
    let ghost fv = crate::orden::enteros(f@);
    let mut claves: Vec<(i64, Vec<char>)> = Vec::new();
    let mut k: usize = 0;
    while k < f.len()
        invariant
            k <= f.len(),
            fv == crate::orden::enteros(f@),
            forall|j: int| 0 <= j < f.len() ==> (f@[j] as int) < ps.len(),
            crate::orden::vista_claves(claves@) == fv.take(k as int).map_values(
                |x: int| clave_orden(ps@[x], o),
            ),
        decreases f.len() - k,
    {
        let c = clave_orden_exec(&ps[f[k]], &o);
        let ghost antes = claves@;
        claves.push(c);
        assert(crate::orden::vista_claves(claves@) =~= crate::orden::vista_claves(antes).push(
            (c.0 as int, c.1@),
        ));
        assert(fv.take(k + 1) =~= fv.take(k as int).push(fv[k as int]));
        k = k + 1;
    }
    assert(fv.take(f@.len() as int) =~= fv);
    let desc = match o {
        Orden::Nombre => false,
        _ => true,
    };
    let perm = crate::orden::ordenar(&claves, desc);
    let mut r: Vec<usize> = Vec::new();
    let mut m: usize = 0;
    while m < perm.len()
        invariant
            m <= perm.len(),
            crate::orden::ordenados(
                crate::orden::vista_claves(claves@),
                desc,
                crate::orden::enteros(perm@),
                claves@.len() as int,
            ),
            claves.len() == f.len(),
            r@.len() == m,
            forall|j: int| 0 <= j < m ==> r@[j] == f@[perm@[j] as int],
        decreases perm.len() - m,
    {
        assert(crate::orden::enteros(perm@)[m as int] == perm@[m as int] as int);
        r.push(f[perm[m]]);
        m = m + 1;
    }
    proof {
        let ks = fv.map_values(|x: int| clave_orden(ps@[x], o));
        assert(ks =~= crate::orden::vista_claves(claves@));
        assert(desc == descendente(o));
        let pv = crate::orden::enteros(perm@);
        let rv = crate::orden::enteros(r@);
        assert forall|j: int| 0 <= j < rv.len() implies #[trigger] rv[j] == fv[pv[j]] by {
            assert(rv[j] == r@[j] as int);
            assert(pv[j] == perm@[j] as int);
        }
    }
    r
}

} // verus!

verus! {

// ---------------------------------------------------------------------------
// Referencias a proyectos.
// ---------------------------------------------------------------------------

/// El proyecto del que cuelga una subcarpeta.
pub struct PadreRef {
    pub id: String,
    pub nombre: String,
}

/// Referencia corta a un proyecto, la que viaja dentro de notas, documentos y
/// entrevistas. Si es una subcarpeta, `padre` dice de qué proyecto cuelga.
pub struct ProyectoRef {
    pub id: String,
    pub nombre: String,
    pub padre: Option<PadreRef>,
}

/// La referencia que sale de las cuatro columnas de una fila (id y nombre del
/// proyecto y de su padre): hay proyecto si vienen su id y su nombre, y padre
/// si vienen los dos suyos.
pub fn proyecto_ref(
    id: Option<String>,
    nombre: Option<String>,
    padre_id: Option<String>,
    padre_nombre: Option<String>,
) -> (r: Option<ProyectoRef>)
    ensures
        match r {
            Some(p) => {
                &&& id == Some(p.id)
                &&& nombre == Some(p.nombre)
                &&& match p.padre {
                    Some(q) => padre_id == Some(q.id) && padre_nombre == Some(q.nombre),
                    None => padre_id is None || padre_nombre is None,
                }
            },
            None => id is None || nombre is None,
        },
{
    let padre = match (padre_id, padre_nombre) {
        (Some(i), Some(n)) => Some(PadreRef { id: i, nombre: n }),
        _ => None,
    };
    match (id, nombre) {
        (Some(i), Some(n)) => Some(ProyectoRef { id: i, nombre: n, padre }),
        _ => None,
    }
}

} // verus!

verus! {

// ---------------------------------------------------------------------------
// Arranque y acceso.
// ---------------------------------------------------------------------------

/// El puerto de `PUERTO` si es un número de puerto; si no, 8080.
pub open spec fn puerto_spec(v: Option<Seq<char>>) -> u16 {
    match v {
        Some(p) => match crate::texto::leer_u64(p) {
            Some(n) => if n <= u16::MAX {
                n as u16
            } else {
                8080
            },
            None => 8080,
        },
        None => 8080,
    }
}

/// El puerto en que se escucha, leído como `str::parse::<u16>`.
pub fn puerto_de(v: Option<&str>) -> (r: u16)
    ensures
        r == puerto_spec(crate::llm::opcion_str(v)),
{
    match v {
        Some(p) => {
            let c = caracteres(p);
            assert(c@.subrange(0, c@.len() as int) == c@);
            match crate::texto::leer_u64_de(&c, 0, c.len()) {
                Some(n) => if n <= 65535 {
                    n as u16
                } else {
                    8080
                },
                None => 8080,
            }
        },
        None => 8080,
    }
}

/// La base de datos: `RUTA_DB` si está; si no, en el volumen `/data` si
/// existe y, si tampoco, en el directorio actual.
pub fn ruta_db_de(var: Option<&str>, hay_data: bool) -> (r: String)
    ensures
        r@ == match crate::llm::opcion_str(var) {
            Some(v) => v,
            None => if hay_data {
                "/data/notas.db"@
            } else {
                "notas.db"@
            },
        },
{
    match var {
        Some(v) => String::from_str(v),
        None => if hay_data {
            String::from_str("/data/notas.db")
        } else {
            String::from_str("notas.db")
        },
    }
}

/// Un texto opcional sin blancos en los bordes, si queda algo.
pub open spec fn con_algo(v: Option<Seq<char>>) -> Option<Seq<char>> {
    match v {
        Some(x) => if recortar(x).len() > 0 {
            Some(recortar(x))
        } else {
            None
        },
        None => None,
    }
}

fn recortado_si_hay(v: Option<&str>) -> (r: Option<String>)
    ensures
        crate::llm::opcion_string(r) == con_algo(crate::llm::opcion_str(v)),
{
    match v {
        Some(x) => {
            let t = recortado(x);
            if t.as_str().unicode_len() > 0 {
                Some(t)
            } else {
                None
            }
        },
        None => None,
    }
}

/// El token de acceso configurado: sin blancos, y ninguno si queda vacío.
pub fn token_de(v: Option<&str>) -> (r: Option<String>)
    ensures
        crate::llm::opcion_string(r) == con_algo(crate::llm::opcion_str(v)),
{
    recortado_si_hay(v)
}

/// Si una petición puede pasar: sin token configurado pasa todo; con él,
/// la cabecera tiene que ser `Bearer ` seguido del token (con blancos
/// alrededor si los hay).
pub open spec fn acceso_spec(esperado: Option<Seq<char>>, cabecera: Option<Seq<char>>) -> bool {
    match esperado {
        None => true,
        Some(t) => match cabecera {
            Some(c) => c.len() >= 7 && c.take(7) == "Bearer "@ && recortar(c.skip(7)) == t,
            None => false,
        },
    }
}

/// `Authorization` contra el token, comparando en tiempo constante.
pub fn acceso_valido(esperado: Option<&str>, cabecera: Option<&str>) -> (r: bool)
    ensures
        r == acceso_spec(crate::llm::opcion_str(esperado), crate::llm::opcion_str(cabecera)),
{
    proof {
        reveal_strlit("Bearer ");
    }
    match esperado {
        None => true,
        Some(t) => match cabecera {
            Some(c) => {
                let v = caracteres(c);
                let n = v.len();
                assert(v@.subrange(0, n as int) == v@);
                if !crate::texto::empieza_por(&v, 0, n, "Bearer ") {
                    return false;
                }
                assert(v@.subrange(0, 7) == v@.take(7));
                let (a, b) = bordes(&v, 7, n, Clase::Blanco);
                assert(v@.subrange(7, n as int) =~= v@.skip(7));
                let dado = texto_de(&v, a, b);
                iguales_en_tiempo_constante(dado.as_str(), t)
            },
            None => false,
        },
    }
}

// ---------------------------------------------------------------------------
// Proyectos pedidos por el cliente.
// ---------------------------------------------------------------------------

/// El proyecto que manda el cliente: vacío, `null` o `ninguno` es «Sin
/// proyecto»; si no, el id sin blancos, que luego tiene que existir.
pub open spec fn proyecto_pedido_spec(p: Option<Seq<char>>) -> Option<Seq<char>> {
    match con_algo(p) {
        Some(x) => if x == "ninguno"@ {
            None
        } else {
            Some(x)
        },
        None => None,
    }
}

pub fn proyecto_pedido(p: Option<&str>) -> (r: Option<String>)
    ensures
        crate::llm::opcion_string(r) == proyecto_pedido_spec(crate::llm::opcion_str(p)),
{
    match recortado_si_hay(p) {
        Some(x) => if crate::texto::mismo_texto(x.as_str(), "ninguno") {
            None
        } else {
            Some(x)
        },
        None => None,
    }
}

/// Un proyecto que no existe es un 400, no una nota perdida.
pub fn proyecto_confirmado(id: String, existe: bool) -> (r: Result<String, Rechazo>)
    ensures
        match r {
            Ok(x) => existe && x@ == id@,
            Err(e) => !existe && rechazo(e, 400, "el proyecto no existe"@),
        },
{
    if existe {
        Ok(id)
    } else {
        Err(rechazar(400, "el proyecto no existe"))
    }
}

/// El padre que pide el cliente: vacío es «proyecto principal».
pub fn padre_pedido(p: Option<&str>) -> (r: Option<String>)
    ensures
        crate::llm::opcion_string(r) == con_algo(crate::llm::opcion_str(p)),
{
    recortado_si_hay(p)
}

/// El padre tiene que existir y ser principal, porque solo hay un nivel.
/// `fila` es lo que se sabe de él: si cuelga de otro y si está archivado.
/// Devuelve su id y si está archivado, que la subcarpeta hereda.
pub fn padre_confirmado(id: String, fila: Option<(bool, bool)>) -> (r: Result<(String, bool), Rechazo>)
    ensures
        match fila {
            Some((true, _)) => r matches Err(e) && rechazo(
                e,
                400,
                "una subcarpeta no puede tener subcarpetas"@,
            ),
            Some((false, a)) => r matches Ok((x, b)) && x@ == id@ && b == a,
            None => r matches Err(e) && rechazo(e, 400, "el proyecto padre no existe"@),
        },
{
    match fila {
        Some((true, _)) => Err(rechazar(400, "una subcarpeta no puede tener subcarpetas")),
        Some((false, a)) => Ok((id, a)),
        None => Err(rechazar(400, "el proyecto padre no existe")),
    }
}

/// El nombre ya está usado: entre las subcarpetas del padre o entre los
/// proyectos principales.
pub fn nombre_repetido(padre: Option<&str>) -> (r: Rechazo)
    ensures
        match padre {
            Some(_) => rechazo(r, 409, "ya hay una subcarpeta con ese nombre en ese proyecto"@),
            None => rechazo(r, 409, "ya hay un proyecto con ese nombre"@),
        },
{
    match padre {
        Some(_) => rechazar(409, "ya hay una subcarpeta con ese nombre en ese proyecto"),
        None => rechazar(409, "ya hay un proyecto con ese nombre"),
    }
}

/// Al borrar un proyecto principal, el nombre con que se prueba su
/// subcarpeta al subir a principal en el intento `n` (desde 1): el suyo; si
/// choca, con el del padre entre paréntesis; y después numerado.
pub open spec fn candidato_spec(hija: Seq<char>, padre: Seq<char>, n: nat) -> Seq<char> {
    if n <= 1 {
        hija
    } else if n == 2 {
        hija + " ("@ + padre + ")"@
    } else {
        hija + " ("@ + padre + ") "@ + decimal(n)
    }
}

pub fn candidato(hija: &str, padre: &str, n: u64) -> (r: String)
    ensures
        r@ == candidato_spec(hija@, padre@, n as nat),
{
    let mut r = String::from_str(hija);
    if n <= 1 {
        return r;
    }
    anadir_str(&mut r, " (");
    anadir_str(&mut r, padre);
    if n == 2 {
        anadir_str(&mut r, ")");
    } else {
        anadir_str(&mut r, ") ");
        anadir_decimal(&mut r, n);
    }
    r
}

// ---------------------------------------------------------------------------
// Textos que escribe el usuario.
// ---------------------------------------------------------------------------

/// El contenido de una nota, sin blancos en los bordes; vacío es un 400.
pub fn contenido_nota(c: &str) -> (r: Result<String, Rechazo>)
    ensures
        match r {
            Ok(x) => recortar(c@).len() > 0 && x@ == recortar(c@),
            Err(e) => recortar(c@).len() == 0 && rechazo(e, 400, "contenido vacío"@),
        },
{
    let t = recortado(c);
    if t.as_str().unicode_len() == 0 {
        Err(rechazar(400, "contenido vacío"))
    } else {
        Ok(t)
    }
}

/// El texto de un documento editado a mano, sin blancos en los bordes;
/// vacío es un 400.
pub fn texto_editado(t: &str) -> (r: Result<String, Rechazo>)
    ensures
        match r {
            Ok(x) => recortar(t@).len() > 0 && x@ == recortar(t@),
            Err(e) => recortar(t@).len() == 0 && rechazo(e, 400, "documento vacio"@),
        },
{
    let x = recortado(t);
    if x.as_str().unicode_len() == 0 {
        Err(rechazar(400, "documento vacio"))
    } else {
        Ok(x)
    }
}

/// Una sugerencia de la IA solo sirve si trae título.
pub fn sugerencia_util(s: &crate::llm::Sugerencia) -> (r: bool)
    ensures
        r == (recortar(s.titulo@).len() > 0),
{
    recortado(s.titulo.as_str()).as_str().unicode_len() > 0
}

} // verus!

verus! {

// ---------------------------------------------------------------------------
// Editar un proyecto.
// ---------------------------------------------------------------------------

/// Lo que se sabe del proyecto que se edita.
pub struct ProyectoActual {
    pub nombre: String,
    pub padre: Option<String>,
    pub subcarpetas: i64,
}

/// Lo que se escribe al editar un proyecto.
pub struct PlanProyecto {
    /// Si cambian nombre o padre, y con ellos la clave guardada.
    pub cambia_clave: bool,
    pub nombre: String,
    pub clave: String,
    pub padre: Option<String>,
    /// Al entrar en un proyecto, la subcarpeta toma su estado de archivo.
    pub archivado_padre: Option<bool>,
    pub descripcion: Option<String>,
    /// Archivar o desarchivar el proyecto y sus subcarpetas.
    pub archivado: Option<bool>,
}

pub open spec fn vista_padre(p: Option<Option<(String, bool)>>) -> Option<Option<(Seq<char>, bool)>> {
    match p {
        None => None,
        Some(None) => Some(None),
        Some(Some((i, a))) => Some(Some((i@, a))),
    }
}

/// El padre final: el que llega o el que tenía. Con subcarpetas no puede ir
/// dentro de otro, y nunca dentro de sí mismo. Con el padre, si hay que
/// copiar su estado de archivo.
pub open spec fn padre_final_spec(
    id: Seq<char>,
    actual_padre: Option<Seq<char>>,
    subcarpetas: i64,
    padre: Option<Option<(Seq<char>, bool)>>,
) -> Result<(Option<Seq<char>>, Option<bool>), (u16, Seq<char>)> {
    match padre {
        None => Ok((actual_padre, None)),
        Some(None) => Ok((None, None)),
        Some(Some((p, a))) => if p == id {
            Err((400u16, "un proyecto no puede ir dentro de si mismo"@))
        } else if subcarpetas > 0 {
            Err((400u16, "tiene subcarpetas: no puede ir dentro de otro proyecto"@))
        } else {
            Ok((Some(p), Some(a)))
        },
    }
}

/// El plan entero: nombre (ya validado) y padre (ya comprobado) si vienen,
/// descripción y archivo. Una subcarpeta se archiva con su proyecto.
pub open spec fn plan_spec(
    id: Seq<char>,
    nombre: Option<Seq<char>>,
    actual: (Seq<char>, Option<Seq<char>>, i64),
    padre: Option<Option<(Seq<char>, bool)>>,
    archivado: Option<bool>,
    descripcion: Option<Seq<char>>,
) -> Result<
    (bool, Seq<char>, Seq<char>, Option<Seq<char>>, Option<bool>, Option<Seq<char>>, Option<bool>),
    (u16, Seq<char>),
> {
    match padre_final_spec(id, actual.1, actual.2, padre) {
        Err(e) => Err(e),
        Ok((p, ap)) => if archivado is Some && p is Some {
            Err((400u16, "una subcarpeta se archiva con su proyecto"@))
        } else {
            let n = match nombre {
                Some(x) => x,
                None => actual.0,
            };
            Ok(
                (
                    nombre is Some || padre is Some,
                    n,
                    clave_en_spec(n, p),
                    p,
                    ap,
                    match descripcion {
                        Some(d) => Some(primeros(recortar(d), 300)),
                        None => None,
                    },
                    archivado,
                ),
            )
        },
    }
}

pub open spec fn vista_plan(r: Result<PlanProyecto, Rechazo>) -> Result<
    (bool, Seq<char>, Seq<char>, Option<Seq<char>>, Option<bool>, Option<Seq<char>>, Option<bool>),
    (u16, Seq<char>),
> {
    match r {
        Ok(p) => Ok(
            (
                p.cambia_clave,
                p.nombre@,
                p.clave@,
                crate::llm::opcion_string(p.padre),
                p.archivado_padre,
                crate::llm::opcion_string(p.descripcion),
                p.archivado,
            ),
        ),
        Err(e) => Err((e.estado, e.mensaje@)),
    }
}

/// Renombrar, describir, archivar, desarchivar y cambiar de padre. `nombre`
/// llega ya validado y `padre` ya comprobado: `None` si no se toca,
/// `Some(None)` si pasa a principal y `Some(Some((id, archivado)))` si pasa a
/// colgar de ese proyecto.
pub fn plan_proyecto(
    id: &str,
    nombre: Option<String>,
    actual: &ProyectoActual,
    padre: Option<Option<(String, bool)>>,
    archivado: Option<bool>,
    descripcion: Option<&str>,
) -> (r: Result<PlanProyecto, Rechazo>)
    ensures
        vista_plan(r) == plan_spec(
            id@,
            crate::llm::opcion_string(nombre),
            (actual.nombre@, crate::llm::opcion_string(actual.padre), actual.subcarpetas),
            vista_padre(padre),
            archivado,
            crate::llm::opcion_str(descripcion),
        ),
        padre is Some ==> (r matches Ok(p) ==> crate::llm::opcion_string(p.padre) != Some(id@)),
        r matches Ok(p) ==> (p.archivado is Some ==> p.padre is None),
        padre matches Some(Some(_)) && r is Ok ==> actual.subcarpetas <= 0,
{
    let cambia_clave = nombre.is_some() || padre.is_some();
    let (p, ap): (Option<String>, Option<bool>) = match padre {
        None => (
            match &actual.padre {
                Some(x) => Some(String::from_str(x.as_str())),
                None => None,
            },
            None,
        ),
        Some(None) => (None, None),
        Some(Some((x, a))) => {
            if crate::texto::mismo_texto(x.as_str(), id) {
                return Err(rechazar(400, "un proyecto no puede ir dentro de si mismo"));
            }
            if actual.subcarpetas > 0 {
                return Err(
                    rechazar(400, "tiene subcarpetas: no puede ir dentro de otro proyecto"),
                );
            }
            (Some(x), Some(a))
        },
    };
    if archivado.is_some() && p.is_some() {
        return Err(rechazar(400, "una subcarpeta se archiva con su proyecto"));
    }
    let n = match nombre {
        Some(x) => x,
        None => String::from_str(actual.nombre.as_str()),
    };
    let clave = match &p {
        Some(x) => clave_en(n.as_str(), Some(x.as_str())),
        None => clave_en(n.as_str(), None),
    };
    let descripcion = match descripcion {
        Some(d) => Some(descripcion_valida(d)),
        None => None,
    };
    Ok(PlanProyecto {
        cambia_clave,
        nombre: n,
        clave,
        padre: p,
        archivado_padre: ap,
        descripcion,
        archivado,
    })
}

/// «Sin proyecto» encabeza la lista si tiene notas o entrevistas y no se está
/// buscando.
pub fn encabeza_sin_proyecto(buscando: bool, notas: i64, entrevistas: i64) -> (r: bool)
    ensures
        r == (!buscando && (notas > 0 || entrevistas > 0)),
{
    !buscando && (notas > 0 || entrevistas > 0)
}

} // verus!

verus! {

// ---------------------------------------------------------------------------
// La consulta de la lista de notas.
// ---------------------------------------------------------------------------

/// Filtro de la lista de notas: texto, etiqueta, fechas y proyecto.
pub struct Filtro {
    pub q: Option<String>,
    pub etiqueta: Option<String>,
    pub desde: Option<String>,
    pub hasta: Option<String>,
    pub proyecto: Option<String>,
    pub solo: Option<String>,
}

/// Una condición con parámetro: si hay valor, se añade al final de los
/// parámetros y la condición lo cita por su número.
pub open spec fn con_param(
    s: (Seq<char>, Seq<Seq<char>>),
    v: Option<Seq<char>>,
    antes: Seq<char>,
    despues: Seq<char>,
) -> (Seq<char>, Seq<Seq<char>>) {
    match v {
        Some(x) => (s.0 + antes + decimal((s.1.len() + 1) as nat) + despues, s.1.push(x)),
        None => s,
    }
}

/// La condición de proyecto de `sql_proyecto`.
pub open spec fn con_proyecto(
    s: (Seq<char>, Seq<Seq<char>>),
    columna: Seq<char>,
    p: Option<Seq<char>>,
    solo: bool,
) -> (Seq<char>, Seq<Seq<char>>) {
    match filtro_spec(p) {
        None => s,
        Some(None) => (s.0 + condicion_spec(columna, false, solo, 0), s.1),
        Some(Some(id)) => (
            s.0 + condicion_spec(columna, true, solo, (s.1.len() + 1) as nat),
            s.1.push(id),
        ),
    }
}

pub open spec fn no_vacio(v: Option<Seq<char>>) -> Option<Seq<char>> {
    match v {
        Some(x) => if x.len() > 0 {
            Some(x)
        } else {
            None
        },
        None => None,
    }
}

pub open spec fn fts_de(q: Option<Seq<char>>) -> Option<Seq<char>> {
    match q {
        Some(x) => consulta_fts_spec(x),
        None => None,
    }
}

/// La consulta de la lista: búsqueda por palabra (FTS5), etiqueta exacta,
/// fechas desde y hasta, proyecto; de la más reciente a la más antigua y
/// hasta 500.
pub open spec fn consulta_notas_spec(f: Filtro) -> (Seq<char>, Seq<Seq<char>>) {
    let s0 = ("SELECT id FROM notas n WHERE 1=1"@, Seq::<Seq<char>>::empty());
    let s1 = con_param(
        s0,
        fts_de(crate::llm::opcion_string(f.q)),
        " AND n.id IN (SELECT id FROM notas_fts WHERE notas_fts MATCH ?"@,
        ")"@,
    );
    let s2 = con_param(
        s1,
        con_algo(crate::llm::opcion_string(f.etiqueta)),
        " AND EXISTS (SELECT 1 FROM etiquetas x WHERE x.nota_id = n.id AND x.etiqueta = ?"@,
        ")"@,
    );
    let s3 = con_param(s2, no_vacio(crate::llm::opcion_string(f.desde)), " AND n.creada_en >= ?"@, seq![]);
    let s4 = con_param(s3, no_vacio(crate::llm::opcion_string(f.hasta)), " AND n.creada_en <= ?"@, seq![]);
    let s5 = con_proyecto(
        s4,
        "n.proyecto_id"@,
        crate::llm::opcion_string(f.proyecto),
        es_solo_spec(crate::llm::opcion_string(f.solo)),
    );
    (s5.0 + " ORDER BY n.creada_en DESC LIMIT 500"@, s5.1)
}

fn anadir_param(sql: &mut String, args: &mut Vec<String>, v: Option<String>, antes: &str, despues: &str)
    requires
        old(args).len() < 100,
    ensures
        (final(sql)@, vistas_str(final(args)@)) == con_param(
            (old(sql)@, vistas_str(old(args)@)),
            crate::llm::opcion_string(v),
            antes@,
            despues@,
        ),
        final(args).len() <= old(args).len() + 1,
{
    match v {
        Some(x) => {
            let ghost vx = x@;
            let ghost a0 = args@;
            args.push(x);
            assert(vistas_str(args@) =~= vistas_str(a0).push(vx));
            anadir_str(sql, antes);
            anadir_decimal(sql, args.len() as u64);
            anadir_str(sql, despues);
        },
        None => {},
    }
}

fn como_str(o: &Option<String>) -> (r: Option<&str>)
    ensures
        crate::llm::opcion_str(r) == crate::llm::opcion_string(*o),
{
    match o {
        Some(x) => Some(x.as_str()),
        None => None,
    }
}

/// La consulta de la lista de notas y sus parámetros.
pub fn consulta_notas(f: &Filtro) -> (r: (String, Vec<String>))
    ensures
        (r.0@, vistas_str(r.1@)) == consulta_notas_spec(*f),
{
    let mut sql = String::from_str("SELECT id FROM notas n WHERE 1=1");
    let mut args: Vec<String> = Vec::new();
    assert(vistas_str(args@) =~= Seq::<Seq<char>>::empty());
    let q = match &f.q {
        Some(x) => consulta_fts(x.as_str()),
        None => None,
    };
    anadir_param(
        &mut sql,
        &mut args,
        q,
        " AND n.id IN (SELECT id FROM notas_fts WHERE notas_fts MATCH ?",
        ")",
    );
    let e = recortado_si_hay(como_str(&f.etiqueta));
    anadir_param(
        &mut sql,
        &mut args,
        e,
        " AND EXISTS (SELECT 1 FROM etiquetas x WHERE x.nota_id = n.id AND x.etiqueta = ?",
        ")",
    );
    let d = match &f.desde {
        Some(x) => if x.as_str().unicode_len() > 0 {
            Some(String::from_str(x.as_str()))
        } else {
            None
        },
        None => None,
    };
    proof {
        reveal_strlit("");
    }
    anadir_param(&mut sql, &mut args, d, " AND n.creada_en >= ?", "");
    let h = match &f.hasta {
        Some(x) => if x.as_str().unicode_len() > 0 {
            Some(String::from_str(x.as_str()))
        } else {
            None
        },
        None => None,
    };
    anadir_param(&mut sql, &mut args, h, " AND n.creada_en <= ?", "");
    let ghost s4 = (sql@, vistas_str(args@));
    let solo = es_solo(como_str(&f.solo));
    let p = como_str(&f.proyecto);
    sql_proyecto(&mut sql, &mut args, "n.proyecto_id", p, solo);
    proof {
        assert(vistas_str(args@).len() == args@.len());
        assert((sql@, vistas_str(args@)) == con_proyecto(
            s4,
            "n.proyecto_id"@,
            crate::llm::opcion_str(p),
            solo,
        ));
    }
    anadir_str(&mut sql, " ORDER BY n.creada_en DESC LIMIT 500");
    (sql, args)
}

} // verus!

verus! {

// ---------------------------------------------------------------------------
// Documentos: creación y regeneración.
// ---------------------------------------------------------------------------

/// La instrucción del documento: sin blancos en los bordes y hasta 500 caracteres.
pub fn instruccion_valida(i: &str) -> (r: String)
    ensures
        r@ == primeros(recortar(i@), 500),
{
    crate::texto::recortado_hasta(i, 500)
}

pub open spec fn vistas_opciones(v: Seq<Option<String>>) -> Seq<Option<Seq<char>>> {
    v.map_values(|o: Option<String>| crate::llm::opcion_string(o))
}

/// El proyecto común: el de la primera, si todas son de ese mismo.
pub open spec fn comun_spec(ps: Seq<Option<Seq<char>>>) -> Option<Seq<char>> {
    if ps.len() > 0 && ps[0] is Some && (forall|i: int| 0 <= i < ps.len() ==> #[trigger] ps[i] == ps[0]) {
        ps[0]
    } else {
        None
    }
}

/// El documento es del proyecto solo si todas sus notas lo son.
pub fn proyecto_comun(ps: &Vec<Option<String>>) -> (r: Option<String>)
    ensures
        crate::llm::opcion_string(r) == comun_spec(vistas_opciones(ps@)),
{
    let ghost v = vistas_opciones(ps@);
    if ps.len() == 0 {
        return None;
    }
    let primero = match &ps[0] {
        Some(p) => p,
        None => return None,
    };
    let mut i: usize = 1;
    while i < ps.len()
        invariant
            1 <= i <= ps.len(),
            v == vistas_opciones(ps@),
            v[0] == Some(primero@),
            forall|j: int| 0 <= j < i ==> #[trigger] v[j] == v[0],
        decreases ps.len() - i,
    {
        let igual = match &ps[i] {
            Some(x) => crate::texto::mismo_texto(x.as_str(), primero.as_str()),
            None => false,
        };
        if !igual {
            assert(v[i as int] != v[0]);
            return None;
        }
        i = i + 1;
    }
    Some(String::from_str(primero.as_str()))
}

/// Si las notas son todas de algún proyecto pero no del mismo: entonces el
/// documento es del proyecto principal común a todas, si lo hay.
pub open spec fn hace_falta_raiz_spec(ps: Seq<Option<Seq<char>>>) -> bool {
    ps.len() > 0 && ps[0] is Some && comun_spec(ps) is None && (forall|i: int|
        0 <= i < ps.len() ==> #[trigger] ps[i] is Some)
}

pub fn hace_falta_raiz(ps: &Vec<Option<String>>) -> (r: bool)
    ensures
        r == hace_falta_raiz_spec(vistas_opciones(ps@)),
{
    let ghost v = vistas_opciones(ps@);
    if ps.len() == 0 || ps[0].is_none() {
        return false;
    }
    if proyecto_comun(ps).is_some() {
        return false;
    }
    let mut i: usize = 0;
    while i < ps.len()
        invariant
            i <= ps.len(),
            v == vistas_opciones(ps@),
            forall|j: int| 0 <= j < i ==> #[trigger] v[j] is Some,
        decreases ps.len() - i,
    {
        if ps[i].is_none() {
            assert(v[i as int] is None);
            return false;
        }
        i = i + 1;
    }
    true
}

/// Las claves de orden de las notas de un documento: su fecha.
pub open spec fn claves_fuentes(f: Seq<FuenteDocumento>) -> Seq<(int, Seq<char>)> {
    f.map_values(|x: FuenteDocumento| (0int, x.creada_en@))
}

/// Las notas entran en el documento de la más antigua a la más reciente, así
/// el modelo lee la historia en el orden en que se dictó; a igual fecha, en
/// el orden en que se pidieron.
pub fn orden_de_fuentes(f: &Vec<FuenteDocumento>) -> (r: Vec<usize>)
    ensures
        crate::orden::ordenados(
            claves_fuentes(f@),
            false,
            crate::orden::enteros(r@),
            f@.len() as int,
        ),
{
    let mut k: Vec<(i64, Vec<char>)> = Vec::new();
    let mut i: usize = 0;
    while i < f.len()
        invariant
            i <= f.len(),
            crate::orden::vista_claves(k@) == claves_fuentes(f@).take(i as int),
        decreases f.len() - i,
    {
        let c = caracteres(f[i].creada_en.as_str());
        let ghost antes = k@;
        k.push((0, c));
        assert(crate::orden::vista_claves(k@) =~= crate::orden::vista_claves(antes).push(
            (0int, f@[i as int].creada_en@),
        ));
        assert(claves_fuentes(f@).take(i + 1) =~= claves_fuentes(f@).take(i as int).push(
            (0int, f@[i as int].creada_en@),
        ));
        i = i + 1;
    }
    assert(claves_fuentes(f@).take(f@.len() as int) =~= claves_fuentes(f@));
    crate::orden::ordenar(&k, false)
}

/// El texto final del documento: lo que redactó el modelo y, después, la
/// sección de notas de origen que escribe la aplicación.
pub fn texto_documento(markdown: &str, fuentes: &[NotaFuente]) -> (r: String)
    requires
        fuentes@.len() < u64::MAX,
    ensures
        r@ == recortar(markdown@) + "\n\n"@ + notas_de_origen_spec(fuentes@),
{
    let mut t = recortado(markdown);
    anadir_str(&mut t, "\n\n");
    let o = notas_de_origen(fuentes);
    anadir_str(&mut t, o.as_str());
    t
}

/// Lo que se puede cambiar al volver a generar un documento.
pub struct Regeneracion {
    pub instruccion: Option<String>,
    pub tipo: Option<String>,
    pub roles: Option<Vec<String>>,
    /// `None`: el mismo modelo; `Some(None)`: el del servidor.
    pub modelo: Option<Option<String>>,
}

/// Con qué se vuelve a generar.
pub struct PlanRegeneracion {
    pub tipo: &'static str,
    pub modelo: Option<String>,
    pub instruccion: Option<String>,
}

/// Un documento que se está generando no se vuelve a pedir; el tipo es el
/// pedido o, si no se dice, el que tenía; el modelo, el pedido o el que
/// tenía; la instrucción, la nueva (recortada) si viene.
pub open spec fn regeneracion_spec(
    estado: Seq<char>,
    tipo_actual: Seq<char>,
    modelo_actual: Option<Seq<char>>,
    r: Regeneracion,
) -> Result<(Seq<char>, Option<Seq<char>>, Option<Seq<char>>), (u16, Seq<char>)> {
    if estado == "pendiente"@ {
        Err((409u16, "ese documento ya se esta generando"@))
    } else {
        match tipo_valido_spec(crate::llm::opcion_string(r.tipo)) {
            Err(e) => Err(e),
            Ok(t) => Ok(
                (
                    match t {
                        Some(x) => x,
                        None => if tipo_actual == "informe"@ {
                            "informe"@
                        } else {
                            "encargo"@
                        },
                    },
                    match r.modelo {
                        None => modelo_actual,
                        Some(m) => crate::llm::opcion_string(m),
                    },
                    match r.instruccion {
                        Some(i) => Some(primeros(recortar(i@), 500)),
                        None => None,
                    },
                ),
            ),
        }
    }
}

pub open spec fn vista_regeneracion(r: Result<PlanRegeneracion, Rechazo>) -> Result<
    (Seq<char>, Option<Seq<char>>, Option<Seq<char>>),
    (u16, Seq<char>),
> {
    match r {
        Ok(p) => Ok(
            (
                p.tipo@,
                crate::llm::opcion_string(p.modelo),
                crate::llm::opcion_string(p.instruccion),
            ),
        ),
        Err(e) => Err((e.estado, e.mensaje@)),
    }
}

/// Cómo se vuelve a generar un documento en `estado`, del tipo y modelo
/// dados, con los cambios pedidos.
pub fn plan_regeneracion(
    estado: &str,
    tipo_actual: &str,
    modelo_actual: Option<String>,
    r: &Regeneracion,
) -> (res: Result<PlanRegeneracion, Rechazo>)
    ensures
        vista_regeneracion(res) == regeneracion_spec(
            estado@,
            tipo_actual@,
            crate::llm::opcion_string(modelo_actual),
            *r,
        ),
{
    if crate::texto::mismo_texto(estado, "pendiente") {
        return Err(rechazar(409, "ese documento ya se esta generando"));
    }
    let pedido = tipo_valido(como_str(&r.tipo))?;
    proof {
        reveal_strlit("informe");
        reveal_strlit("encargo");
    }
    let tipo: &'static str = match pedido {
        Some(t) => t,
        None => if crate::texto::mismo_texto(tipo_actual, "informe") {
            "informe"
        } else {
            "encargo"
        },
    };
    let modelo = match &r.modelo {
        None => modelo_actual,
        Some(m) => match m {
            Some(x) => Some(String::from_str(x.as_str())),
            None => None,
        },
    };
    let instruccion = match &r.instruccion {
        Some(i) => Some(instruccion_valida(i.as_str())),
        None => None,
    };
    Ok(PlanRegeneracion { tipo, modelo, instruccion })
}

/// Qué pasa con los roles al regenerar: un informe con roles nuevos los
/// sustituye; sin ellos, rehace los mismos; un encargo no lleva.
pub enum RolesRegenerados {
    Nuevos,
    Mismos,
    Ninguno,
}

pub fn roles_de_regeneracion(informe: bool, con_roles: bool) -> (r: RolesRegenerados)
    ensures
        r == (if informe && con_roles {
            RolesRegenerados::Nuevos
        } else if informe {
            RolesRegenerados::Mismos
        } else {
            RolesRegenerados::Ninguno
        }),
{
    if informe && con_roles {
        RolesRegenerados::Nuevos
    } else if informe {
        RolesRegenerados::Mismos
    } else {
        RolesRegenerados::Ninguno
    }
}

/// Rehacer los mismos roles exige que el informe tenga alguno.
pub fn quedan_roles(hay: i64) -> (r: Result<(), Rechazo>)
    ensures
        match r {
            Ok(()) => hay != 0,
            Err(e) => hay == 0 && rechazo(e, 400, "elige al menos un rol"@),
        },
{
    if hay == 0 {
        Err(rechazar(400, "elige al menos un rol"))
    } else {
        Ok(())
    }
}

} // verus!
